//! Frames, jumps, calls and returns.

use vstd::prelude::*;
use crate::backend::vm::error::{ErrorKind, VMError};
use crate::backend::vm::heap::{spec_close_state, spec_function_at, spec_listed, spec_open_at};
use crate::backend::vm::std_lib::{lua_builtin_print, spec_print_line};
use crate::backend::vm::spec_pieces;
use crate::backend::vm::stack::StackFrame;
use crate::backend::vm::{
    lemma_frames_disjoint, lemma_frames_end, spec_frames_wf, spec_lists, spec_registered,
    VirtualMachine, MAX_CALL_STACK,
};
use crate::common::object::{CFunction, LuaValue};
use crate::common::text::{decimal, spec_decimal};

verus! {

impl VirtualMachine {
    /// Where the next frame starts: the end of the top frame, or 0.
    pub open spec fn spec_stack_top(&self) -> int {
        if self.call_stack@.len() > 0 {
            self.top().base_offset + self.top().reg_count
        } else {
            0
        }
    }

    /// Where the next frame starts.
    pub fn get_actual_stack_top(&self) -> (r: usize)
        requires
            self.frames_wf(),
        ensures
            r == self.spec_stack_top(),
    {
        let n = self.call_stack.len();
        let _len = self.value_stack.values.len();
        if n > 0 {
            self.call_stack[n - 1].base_offset + self.call_stack[n - 1].reg_count
        } else {
            0
        }
    }

    /// Makes room on the value stack for a frame of `frame_size` registers
    /// above the top frame, and returns the frame. New places of the stack
    /// hold `Nil`. Fails where the stack would outgrow the machine word.
    pub fn make_stack_frame(
        &mut self,
        func_name: &str,
        frame_size: usize,
        return_dest: Option<usize>,
        upvalues: Vec<usize>,
    ) -> (r: Result<StackFrame, VMError>)
        requires
            old(self).wf(),
        ensures
            final(self).wf(),
            final(self).call_stack == old(self).call_stack,
            final(self).globals == old(self).globals,
            final(self).func_meta == old(self).func_meta,
            final(self).heap == old(self).heap,
            final(self).log_level == old(self).log_level,
            final(self).pending == old(self).pending,
            final(self).output == old(self).output,
            match r {
                Ok(frame) => {
                    &&& old(self).spec_stack_top() + frame_size <= usize::MAX
                    &&& frame.func_name@ == func_name@
                    &&& frame.base_offset == old(self).spec_stack_top()
                    &&& frame.reg_count == frame_size
                    &&& frame.pc == 0
                    &&& frame.ret_dest == return_dest
                    &&& frame.upvalues == upvalues
                    &&& frame.out_upvalues@.len() == 0
                    &&& final(self).value_stack.values@.len() == if old(self).value_stack.values@.len() < frame.base_offset + frame_size {
                        (frame.base_offset + frame_size) as nat
                    } else {
                        old(self).value_stack.values@.len()
                    }
                    &&& forall|i: int|
                        0 <= i < old(self).value_stack.values@.len() ==> final(self).value_stack.values@[i] == old(self).value_stack.values@[i]
                    &&& forall|i: int|
                        old(self).value_stack.values@.len() <= i < final(self).value_stack.values@.len() ==> final(self).value_stack.values@[i]
                            == LuaValue::Nil
                },
                Err(e) => old(self).spec_stack_top() + frame_size > usize::MAX
                    && e.kind is StackOverflow && old(self).locates(e) && *final(self) == *old(self),
            },
    {
        let base_offset = self.get_actual_stack_top();
        if frame_size > usize::MAX - base_offset {
            return Err(self.error(ErrorKind::StackOverflow));
        }
        self.value_stack.reserve(base_offset + frame_size);
        proof {
            assert(spec_frames_wf(self.call_stack@, self.value_stack.values@.len()));
            self.lemma_heap_change(old(self));
        }
        Ok(
            StackFrame::new(
                String::from_str(func_name),
                return_dest,
                base_offset,
                frame_size,
                upvalues,
            ),
        )
    }

    /// Puts a frame on the call stack.
    pub fn push_frame(&mut self, frame: StackFrame)
        requires
            old(self).wf(),
            old(self).call_stack@.len() < MAX_CALL_STACK,
            frame.base_offset == old(self).spec_stack_top(),
            frame.base_offset + frame.reg_count <= old(self).value_stack.values@.len(),
        ensures
            final(self).wf(),
            final(self).call_stack@ == old(self).call_stack@.push(frame),
            final(self).value_stack == old(self).value_stack,
            final(self).globals == old(self).globals,
            final(self).func_meta == old(self).func_meta,
            final(self).heap == old(self).heap,
            final(self).log_level == old(self).log_level,
            final(self).pending == old(self).pending,
            final(self).output == old(self).output,
    {
        self.call_stack.push(frame);
        proof {
            let frames = self.call_stack@;
            let before = old(self).call_stack@;
            assert forall|i: int, j: int|
                0 <= i < frames.len() && j == i + 1 && j < frames.len() implies (
            #[trigger] frames[j]).base_offset == (#[trigger] frames[i]).base_offset
                + frames[i].reg_count by {
                if j < before.len() {
                    assert(frames[i] == before[i]);
                    assert(frames[j] == before[j]);
                }
            }
            assert forall|h: usize|
                (#[trigger] spec_open_at(self.heap.all_objects@, h)) is Some implies spec_registered(
                frames,
                h,
                spec_open_at(self.heap.all_objects@, h)->0,
            ) by {
                let idx = spec_open_at(self.heap.all_objects@, h)->0;
                assert(spec_registered(before, h, idx));
                let f = choose|f: int| 0 <= f < before.len() && spec_lists(#[trigger] before[f], h, idx);
                assert(frames[f] == before[f]);
            }
        }
    }

    /// What popping the top frame `f` off machine `old` leaves: the frames
    /// below it; the value stack as it was; and a heap in which every upvalue
    /// that `f` lists is closed over the value of its register, so that no
    /// open upvalue is left on any of `f`'s registers.
    pub open spec fn popped(&self, old: &VirtualMachine, f: StackFrame) -> bool {
        &&& old.call_stack@.len() > 0
        &&& f == old.top()
        &&& self.call_stack@ == old.call_stack@.drop_last()
        &&& self.value_stack == old.value_stack
        &&& self.globals == old.globals
        &&& self.func_meta == old.func_meta
        &&& self.log_level == old.log_level
        &&& self.pending == old.pending
        &&& self.output == old.output
        &&& self.heap_after_pop(old, f)
    }

    /// The heap after frame `f` was popped off machine `old`: every upvalue
    /// that `f` lists is closed over the value of its register, no open
    /// upvalue is left on any of `f`'s registers, and nothing else has changed.
    pub open spec fn heap_after_pop(&self, old: &VirtualMachine, f: StackFrame) -> bool {
        let objs = self.heap.all_objects@;
        let before = old.heap.all_objects@;
        &&& objs.len() == before.len()
        &&& self.heap.string_pool == old.heap.string_pool
        &&& self.heap.total_allocated == old.heap.total_allocated
        &&& self.heap.threshold == old.heap.threshold
        &&& self.heap.max_allocated == old.heap.max_allocated
        &&& forall|h: usize|
            (#[trigger] spec_open_at(objs, h)) is Some ==> spec_open_at(before, h) == spec_open_at(
                objs,
                h,
            ) && !(f.base_offset <= spec_open_at(objs, h)->0 < f.base_offset + f.reg_count)
        &&& forall|x: int|
            0 <= x < before.len() ==> #[trigger] spec_close_state(
                before,
                objs,
                f.out_upvalues@,
                f.reg_count,
                old.value_stack.values@,
                f.base_offset,
                f.out_upvalues@.len() as int,
                x,
            )
    }

    /// Takes the top frame off the call stack, after closing the upvalues
    /// that are open on its registers; see [`VirtualMachine::popped`].
    pub fn pop_frame(&mut self) -> (r: Option<StackFrame>)
        requires
            old(self).wf(),
        ensures
            final(self).wf(),
            match r {
                Some(f) => final(self).popped(old(self), f),
                None => old(self).call_stack@.len() == 0 && *final(self) == *old(self),
            },
    {
        let n = self.call_stack.len();
        if n == 0 {
            return None;
        }
        let ghost frames = self.call_stack@;
        let ghost top = self.call_stack@[n - 1];
        let ghost before = self.heap.all_objects@;
        let ghost stack = self.value_stack.values@;
        proof {
            lemma_frames_end(frames, stack.len(), n - 1);
        }
        let base = self.call_stack[n - 1].base_offset;
        let regs = self.call_stack[n - 1].reg_count;
        self.heap.close_upvalues(
            &self.call_stack[n - 1].out_upvalues,
            &self.value_stack.values,
            base,
            regs,
        );
        let frame = self.call_stack.pop().unwrap();
        proof {
            let objs = self.heap.all_objects@;
            let rest = self.call_stack@;
            let entries = top.out_upvalues@;
            let count = entries.len() as int;
            assert(rest =~= frames.drop_last());
            assert forall|i: int, j: int|
                0 <= i < rest.len() && j == i + 1 && j < rest.len() implies (
            #[trigger] rest[j]).base_offset == (#[trigger] rest[i]).base_offset
                + rest[i].reg_count by {
                assert(rest[i] == frames[i]);
                assert(rest[j] == frames[j]);
            }
            if rest.len() > 0 {
                assert(rest[0] == frames[0]);
                lemma_frames_end(frames, stack.len(), rest.len() - 1);
                assert(rest.last() == frames[rest.len() - 1]);
            }
            assert forall|h: usize| (#[trigger] spec_open_at(objs, h)) is Some implies spec_open_at(
                before,
                h,
            ) == spec_open_at(objs, h) && spec_registered(rest, h, spec_open_at(objs, h)->0) && !(
            top.base_offset <= spec_open_at(objs, h)->0 < top.base_offset + top.reg_count) by {
                let idx = spec_open_at(objs, h)->0;
                assert(spec_close_state(
                    before,
                    objs,
                    entries,
                    top.reg_count,
                    stack,
                    top.base_offset,
                    count,
                    h as int,
                ));
                assert(objs[h as int] == before[h as int]);
                assert(!(spec_listed(entries, top.reg_count, count, h as int)));
                assert(spec_registered(frames, h, idx));
                let f = choose|f: int| 0 <= f < frames.len() && spec_lists(#[trigger] frames[f], h, idx);
                if f == n - 1 {
                    let e = choose|e: int|
                        0 <= e < top.out_upvalues@.len() && (#[trigger] top.out_upvalues@[e]).1 == h
                            && top.out_upvalues@[e].0 < top.reg_count && idx == top.base_offset
                            + top.out_upvalues@[e].0;
                    assert(entries[e].1 == h);
                    assert(spec_listed(entries, top.reg_count, count, h as int));
                } else {
                    assert(rest[f] == frames[f]);
                    assert(spec_lists(rest[f], h, idx));
                    lemma_frames_disjoint(frames, stack.len(), f, n - 1);
                }
            }
        }
        Some(frame)
    }

    /// What `Jump` does to machine `old`.
    pub open spec fn jump_outcome(&self, old: &VirtualMachine, r: Result<(), VMError>, offset: i32) -> bool {
        match r {
            Ok(()) => old.top().pc + offset <= usize::MAX && self.stepped(
                old,
                if old.top().pc + offset < 0 {
                    -(old.top().pc as int)
                } else {
                    offset as int
                },
            ),
            Err(e) => old.top().pc + offset > usize::MAX && e.kind is InternalError && self.failed(old, e),
        }
    }

    /// What `Push` does to machine `old`.
    pub open spec fn push_outcome(&self, old: &VirtualMachine, r: Result<(), VMError>, src: u16) -> bool {
        match r {
            Ok(()) => {
                &&& old.has_reg(src as int)
                &&& self.same_context(old)
                &&& self.top().pc == old.top().pc + 1
                &&& self.value_stack.values@ == old.value_stack.values@.push(old.reg(src as int))
                &&& self.heap == old.heap
                &&& self.pending == old.pending
            },
            Err(e) => !old.has_reg(src as int) && e.kind is InternalError && self.failed(old, e),
        }
    }

    /// `Jump`: the program counter moves by `offset`, counted from the
    /// jump itself; it does not go below 0.
    pub fn handle_jump(&mut self, offset: i32) -> (r: Result<(), VMError>)
        requires
            old(self).running(),
        ensures
            final(self).wf(),
            final(self).jump_outcome(old(self), r, offset),
    {
        let n = self.call_stack.len();
        let pc = self.call_stack[n - 1].pc;
        let new_pc: usize = if offset >= 0 {
            let up = offset as usize;
            if up > usize::MAX - pc {
                return Err(self.internal("program counter out of range"));
            }
            pc + up
        } else {
            let down: usize = if offset == i32::MIN {
                0x8000_0000
            } else {
                (-offset) as usize
            };
            if down > pc {
                0
            } else {
                pc - down
            }
        };
        self.call_stack[n - 1].pc = new_pc;
        proof {
            self.lemma_same_frames(old(self));
        }
        Ok(())
    }

    /// `Push`: the value of register `src` is put on top of the value
    /// stack.
    pub fn handle_push(&mut self, src: u16) -> (r: Result<(), VMError>)
        requires
            old(self).running(),
        ensures
            final(self).wf(),
            final(self).push_outcome(old(self), r, src),
    {
        let val = self.get_reg(src as usize)?;
        self.value_stack.push(val);
        let n = self.call_stack.len();
        self.call_stack[n - 1].pc = self.call_stack[n - 1].pc + 1;
        proof {
            self.lemma_heap_change(old(self));
        }
        Ok(())
    }

    /// Whether this machine is machine `old` after its frames were popped
    /// one by one, the top one first, until none was left; see
    /// [`VirtualMachine::popped`].
    pub open spec fn unwound(&self, old: &VirtualMachine) -> bool
        decreases old.call_stack@.len(),
    {
        if old.call_stack@.len() == 0 {
            *self == *old
        } else {
            exists|mid: VirtualMachine|
                #![trigger mid.popped(old, old.top())]
                mid.popped(old, old.top()) && mid.call_stack@.len() < old.call_stack@.len()
                    && self.unwound(&mid)
        }
    }

    /// Takes every frame off the call stack, the top one first, closing the
    /// upvalues that are open on each.
    pub fn unwind(&mut self)
        requires
            old(self).wf(),
        ensures
            final(self).wf(),
            final(self).unwound(old(self)),
            final(self).call_stack@.len() == 0,
            final(self).value_stack == old(self).value_stack,
            final(self).globals == old(self).globals,
            final(self).func_meta == old(self).func_meta,
            final(self).log_level == old(self).log_level,
            final(self).pending == old(self).pending,
            final(self).output == old(self).output,
            forall|h: usize| spec_open_at(final(self).heap.all_objects@, h) is None,
    {
        while self.call_stack.len() > 0
            invariant
                self.wf(),
                self.value_stack == old(self).value_stack,
                self.globals == old(self).globals,
                self.func_meta == old(self).func_meta,
                self.log_level == old(self).log_level,
                self.pending == old(self).pending,
                self.output == old(self).output,
                forall|last: VirtualMachine| #[trigger]
                    last.unwound(self) ==> last.unwound(old(self)),
            decreases self.call_stack@.len(),
        {
            let ghost before = *self;
            let _ = self.pop_frame();
            proof {
                assert forall|last: VirtualMachine| #[trigger] last.unwound(self) implies last.unwound(
                    old(self),
                ) by {
                    assert(self.popped(&before, before.top()));
                    assert(last.unwound(&before));
                }
            }
        }
        proof {
            assert(self.unwound(self));
            assert forall|h: usize| spec_open_at(self.heap.all_objects@, h) is None by {
                if spec_open_at(self.heap.all_objects@, h) is Some {
                    assert(spec_registered(
                        self.call_stack@,
                        h,
                        spec_open_at(self.heap.all_objects@, h)->0,
                    ));
                }
            }
        }
    }

    /// `Halt`: the frames are popped one by one until the call stack is empty.
    pub fn handle_halt(&mut self) -> (r: Result<(), VMError>)
        requires
            old(self).wf(),
        ensures
            final(self).wf(),
            r is Ok,
            final(self).unwound(old(self)),
            final(self).call_stack@.len() == 0,
            final(self).value_stack == old(self).value_stack,
            final(self).globals == old(self).globals,
            final(self).func_meta == old(self).func_meta,
            final(self).pending == old(self).pending,
            final(self).output == old(self).output,
    {
        self.unwind();
        Ok(())
    }

    /// The value stack after the top frame of machine `old` has returned:
    /// cut at the start of that frame, with the returned value, if there is
    /// one, in the register of the caller that the frame names, if the caller
    /// has it.
    pub open spec fn spec_return_values(old: &VirtualMachine, value: Option<LuaValue>) -> Seq<
        LuaValue,
    > {
        let f = old.top();
        let cut = old.value_stack.values@.subrange(0, f.base_offset as int);
        if old.call_stack@.len() >= 2 && f.ret_dest is Some && value is Some {
            let caller = old.call_stack@[old.call_stack@.len() - 2];
            if f.ret_dest->0 < caller.reg_count {
                cut.update(caller.base_offset + f.ret_dest->0, value->0)
            } else {
                cut
            }
        } else {
            cut
        }
    }

    /// What `Return` does to machine `old`: the top frame is popped, its
    /// open upvalues closed; the value, if one is returned, goes to the
    /// caller; the value stack is cut at the start of the popped frame. More
    /// than one value is a `MultipleReturnValues` error.
    pub open spec fn return_outcome(
        &self,
        old: &VirtualMachine,
        r: Result<(), VMError>,
        start: u16,
        count: u8,
    ) -> bool {
        match r {
            Ok(()) => {
                &&& count <= 1
                &&& count == 1 ==> old.has_reg(start as int)
                &&& self.call_stack@ == old.call_stack@.drop_last()
                &&& self.value_stack.values@ == Self::spec_return_values(
                    old,
                    if count == 1 {
                        Some(old.reg(start as int))
                    } else {
                        None
                    },
                )
                &&& self.globals == old.globals
                &&& self.func_meta == old.func_meta
                &&& self.log_level == old.log_level
                &&& self.pending == old.pending
                &&& self.output == old.output
                &&& self.heap_after_pop(old, old.top())
            },
            Err(e) => {
                &&& self.failed(old, e)
                &&& if count > 1 {
                    e.kind is MultipleReturnValues && e.kind->MultipleReturnValues_0@
                        == "MultipleReturnValuesException: returning multiple values is not supported in this VM version"@
                } else {
                    count == 1 && !old.has_reg(start as int) && e.kind is InternalError
                }
            },
        }
    }

    /// `Return`; see [`VirtualMachine::return_outcome`]. When the last
    /// frame returns, the call stack and the value stack are empty.
    pub fn handle_return(&mut self, start: u16, count: u8) -> (r: Result<(), VMError>)
        requires
            old(self).running(),
        ensures
            final(self).wf(),
            final(self).return_outcome(old(self), r, start, count),
            r is Ok && old(self).call_stack@.len() == 1 ==> final(self).call_stack@.len() == 0
                && final(self).value_stack.values@.len() == 0,
    {
        if count > 1 {
            return Err(
                self.error(
                    ErrorKind::MultipleReturnValues(
                        String::from_str(
                            "MultipleReturnValuesException: returning multiple values is not supported in this VM version",
                        ),
                    ),
                ),
            );
        }
        let value: Option<LuaValue> = if count == 1 {
            Some(self.get_reg(start as usize)?)
        } else {
            None
        };
        let ghost frames = self.call_stack@;
        let ghost stack = self.value_stack.values@;
        let last = match self.pop_frame() {
            Some(f) => f,
            None => {
                return Err(self.internal("StackUnderflowException: return from an empty call stack"));
            },
        };
        let ghost popped = *self;
        let n = self.call_stack.len();
        proof {
            if n > 0 {
                assert(frames[n as int].base_offset == frames[n - 1].base_offset + frames[n
                    - 1].reg_count);
                assert(self.call_stack@[n - 1] == frames[n - 1]);
            }
        }
        if n > 0 {
            match (last.ret_dest, value) {
                (Some(d), Some(v)) => {
                    if d < self.call_stack[n - 1].reg_count {
                        self.call_stack[n - 1].set_reg(d, v, &mut self.value_stack);
                    }
                },
                _ => {},
            }
        }
        self.value_stack.restore(last.base_offset);
        proof {
            let rest = self.call_stack@;
            assert(self.value_stack.values@ =~= Self::spec_return_values(
                old(self),
                if count == 1 {
                    Some(old(self).reg(start as int))
                } else {
                    None
                },
            ));
            assert(spec_frames_wf(rest, self.value_stack.values@.len()));
            assert forall|h: usize|
                (#[trigger] spec_open_at(self.heap.all_objects@, h)) is Some implies spec_registered(
                rest,
                h,
                spec_open_at(self.heap.all_objects@, h)->0,
            ) by {
                assert(popped.upvalues_wf());
            }
        }
        Ok(())
    }

    /// The value stack with the arguments of a call in the first registers
    /// of the frame that starts at `base` and has `size` registers: argument
    /// `i` is the value of register `func_reg + 1 + i` of the caller, or `Nil`
    /// where the caller has no such register.
    pub open spec fn spec_with_args(
        values: Seq<LuaValue>,
        caller: StackFrame,
        base: usize,
        size: usize,
        func_reg: u16,
        argc: int,
    ) -> Seq<LuaValue> {
        Seq::new(
            values.len(),
            |i: int|
                if base <= i < base + size && i - base < argc {
                    if func_reg + 1 + (i - base) < caller.reg_count {
                        values[caller.base_offset + func_reg + 1 + (i - base)]
                    } else {
                        LuaValue::Nil
                    }
                } else {
                    values[i]
                },
        )
    }

    fn copy_args(&mut self, base: usize, size: usize, func_reg: u16, argc: u8)
        requires
            old(self).wf(),
            old(self).call_stack@.len() > 0,
            base == old(self).spec_stack_top(),
            base + size <= old(self).value_stack.values@.len(),
        ensures
            final(self).wf(),
            final(self).call_stack == old(self).call_stack,
            final(self).globals == old(self).globals,
            final(self).func_meta == old(self).func_meta,
            final(self).heap == old(self).heap,
            final(self).log_level == old(self).log_level,
            final(self).pending == old(self).pending,
            final(self).output == old(self).output,
            final(self).value_stack.values@ == Self::spec_with_args(
                old(self).value_stack.values@,
                old(self).top(),
                base,
                size,
                func_reg,
                argc as int,
            ),
    {
        let n = self.call_stack.len();
        let caller_base = self.call_stack[n - 1].base_offset;
        let caller_regs = self.call_stack[n - 1].reg_count;
        let ghost values = self.value_stack.values@;
        let ghost caller = self.call_stack@[n - 1];
        let mut i: usize = 0;
        proof {
            assert(self.value_stack.values@ =~= Self::spec_with_args(
                values,
                caller,
                base,
                size,
                func_reg,
                0,
            ));
        }
        while i < argc as usize
            invariant
                i <= argc,
                n == self.call_stack@.len(),
                n > 0,
                caller == self.call_stack@[n - 1],
                caller_base == caller.base_offset,
                caller_regs == caller.reg_count,
                base == caller_base + caller_regs,
                base + size <= values.len(),
                values == old(self).value_stack.values@,
                self.call_stack == old(self).call_stack,
                self.globals == old(self).globals,
                self.func_meta == old(self).func_meta,
                self.heap == old(self).heap,
                self.log_level == old(self).log_level,
                self.pending == old(self).pending,
                self.output == old(self).output,
                self.value_stack.values@ == Self::spec_with_args(
                    values,
                    caller,
                    base,
                    size,
                    func_reg,
                    i as int,
                ),
            decreases argc - i,
        {
            let src = func_reg as usize + 1 + i;
            if i < size {
                let _len = self.value_stack.values.len();
                let v = if src < caller_regs {
                    self.value_stack.values[caller_base + src].dup()
                } else {
                    LuaValue::Nil
                };
                self.value_stack.values[base + i] = v;
            }
            proof {
                assert(self.value_stack.values@ =~= Self::spec_with_args(
                    values,
                    caller,
                    base,
                    size,
                    func_reg,
                    i + 1,
                ));
            }
            i += 1;
        }
        proof {
            self.lemma_same_frames(old(self));
        }
    }

    /// The value stack made at least `n` long, with `Nil` in new places.
    pub open spec fn spec_reserved(values: Seq<LuaValue>, n: int) -> Seq<LuaValue> {
        if values.len() < n {
            Seq::new(
                n as nat,
                |i: int|
                    if i < values.len() {
                        values[i]
                    } else {
                        LuaValue::Nil
                    },
            )
        } else {
            values
        }
    }

    /// The value stack with `Nil` in the `count` registers of frame
    /// `caller` from `first` on, as far as the frame has them.
    pub open spec fn spec_filled(values: Seq<LuaValue>, caller: StackFrame, first: int, count: int) -> Seq<
        LuaValue,
    > {
        Seq::new(
            values.len(),
            |k: int|
                if caller.base_offset + first <= k < caller.base_offset + first + count && k
                    < caller.base_offset + caller.reg_count {
                    LuaValue::Nil
                } else {
                    values[k]
                },
        )
    }

    /// The arguments that a call hands over: the caller's registers above
    /// the callee, `Nil` where the caller has no such register.
    pub open spec fn spec_call_args(&self, func_reg: u16, argc: int) -> Seq<LuaValue> {
        Seq::new(
            argc as nat,
            |i: int|
                if func_reg + 1 + i < self.top().reg_count {
                    self.reg(func_reg + 1 + i)
                } else {
                    LuaValue::Nil
                },
        )
    }

    /// Whether the frame below the top of this machine is the top frame of
    /// `old` with its program counter one further, and the frames below are
    /// as in `old`.
    pub open spec fn caller_advanced(&self, old: &VirtualMachine) -> bool {
        let n = old.call_stack@.len();
        &&& self.call_stack@.len() == n + 1
        &&& forall|i: int| 0 <= i < n - 1 ==> self.call_stack@[i] == old.call_stack@[i]
        &&& self.call_stack@[n - 1].func_name == old.top().func_name
        &&& self.call_stack@[n - 1].base_offset == old.top().base_offset
        &&& self.call_stack@[n - 1].reg_count == old.top().reg_count
        &&& self.call_stack@[n - 1].ret_dest == old.top().ret_dest
        &&& self.call_stack@[n - 1].upvalues == old.top().upvalues
        &&& self.call_stack@[n - 1].out_upvalues == old.top().out_upvalues
        &&& self.call_stack@[n - 1].pc == old.top().pc + 1
    }

    /// What the call of the closure `h` does to machine `old`: a frame of
    /// the size that the function's metadata gives is put above the caller's,
    /// with the closure's captured variables and the arguments in its first
    /// registers, and the caller's program counter is one further.
    pub open spec fn script_call_outcome(
        &self,
        old: &VirtualMachine,
        r: Result<(), VMError>,
        func_reg: u16,
        argc: u8,
        h: usize,
    ) -> bool {
        match spec_function_at(old.heap.all_objects@, h) {
            None => r is Err && r->Err_0.kind is InternalError && self.failed(old, r->Err_0),
            Some(f) => match old.spec_meta_index(f.name@) {
                None => r is Err && r->Err_0.kind is InternalError && self.failed(old, r->Err_0),
                Some(m) => {
                    let size = old.func_meta@[m].1.max_stack_size;
                    let base = old.spec_stack_top();
                    if base + size > usize::MAX {
                        r is Err && r->Err_0.kind is StackOverflow && self.failed(old, r->Err_0)
                    } else {
                        &&& r is Ok
                        &&& self.caller_advanced(old)
                        &&& self.top().func_name@ == f.name@
                        &&& self.top().base_offset == base
                        &&& self.top().reg_count == size
                        &&& self.top().pc == 0
                        &&& self.top().ret_dest == Some(func_reg as usize)
                        &&& self.top().upvalues@ == f.upvalues@
                        &&& self.top().out_upvalues@.len() == 0
                        &&& self.value_stack.values@ == Self::spec_with_args(
                            Self::spec_reserved(old.value_stack.values@, base + size),
                            old.top(),
                            base as usize,
                            size,
                            func_reg,
                            argc as int,
                        )
                        &&& self.heap == old.heap
                        &&& self.globals == old.globals
                        &&& self.func_meta == old.func_meta
                        &&& self.log_level == old.log_level
                        &&& self.pending == old.pending
                        &&& self.output == old.output
                    }
                },
            },
        }
    }

    /// What the call of the built-in `print` does to machine `old`: the
    /// line is written, the value stack is cut at the end of the caller's
    /// frame, the registers for results beyond the first get `Nil`, and the
    /// caller's program counter is one further.
    /// Whether this machine is machine `old` with the frame of a built-in
    /// function on its call stack: the caller is one instruction further; the
    /// frame has as many registers as there are arguments and nothing else,
    /// and returns to the register of the callee; the value stack reaches to
    /// the end of the frame and holds the arguments there.
    pub open spec fn native_entered(&self, old: &VirtualMachine, func_reg: u16, argc: u8) -> bool {
        let base = old.spec_stack_top();
        &&& self.caller_advanced(old)
        &&& self.top().func_name@ == "__native_"@ + spec_decimal(func_reg as nat)
        &&& self.top().base_offset == base
        &&& self.top().reg_count == argc
        &&& self.top().pc == 0
        &&& self.top().ret_dest == Some(func_reg as usize)
        &&& self.top().upvalues@.len() == 0
        &&& self.top().out_upvalues@.len() == 0
        &&& self.value_stack.values@ == Self::spec_with_args(
            Self::spec_reserved(old.value_stack.values@, base + argc),
            old.top(),
            base as usize,
            argc as usize,
            func_reg,
            argc as int,
        )
        &&& self.heap == old.heap
        &&& self.globals == old.globals
        &&& self.func_meta == old.func_meta
        &&& self.log_level == old.log_level
        &&& self.pending == old.pending
        &&& self.output == old.output
    }

    pub open spec fn native_call_outcome(
        &self,
        old: &VirtualMachine,
        r: Result<(), VMError>,
        func_reg: u16,
        argc: u8,
        retc: u8,
    ) -> bool {
        let base = old.spec_stack_top();
        let line = spec_print_line(old.heap.all_objects@, old.spec_call_args(func_reg, argc as int));
        if base + argc > usize::MAX {
            r is Err && r->Err_0.kind is StackOverflow && self.failed(old, r->Err_0)
        } else if line is None {
            r is Err && r->Err_0.kind is InternalError && self.locates(r->Err_0)
                && self.native_entered(old, func_reg, argc)
        } else {
            &&& r is Ok
            &&& self.same_frames_but_pc(old)
            &&& self.top().pc == old.top().pc + 1
            &&& self.value_stack.values@ == Self::spec_filled(
                old.value_stack.values@.subrange(0, base),
                old.top(),
                func_reg as int,
                if retc > 0 {
                    retc - 1
                } else {
                    0
                },
            )
            &&& spec_pieces(self.output@) == spec_pieces(old.output@) + line->0
            &&& self.heap.all_objects@ == old.heap.all_objects@
            &&& self.heap.string_pool == old.heap.string_pool
            &&& self.heap.total_allocated == old.heap.total_allocated
            &&& self.heap.threshold == old.heap.threshold
            &&& self.globals == old.globals
            &&& self.func_meta == old.func_meta
            &&& self.log_level == old.log_level
            &&& self.pending == old.pending
        }
    }

    /// The text of the error for a call of a value that is no function.
    pub open spec fn spec_not_callable(v: LuaValue) -> Seq<char> {
        match v {
            LuaValue::Nil => "NullPointerException: attempt to invoke a nil value"@,
            _ => "TypeMismatchException: object of type '"@ + v.spec_kind_name()
                + "' is not callable"@,
        }
    }

    /// What `Call` does to machine `old`: a closure gets a frame; a
    /// built-in runs at once; any other value is an `InvalidCall` error; a
    /// call stack that is full is a `StackOverflow` error.
    pub open spec fn call_outcome(
        &self,
        old: &VirtualMachine,
        r: Result<(), VMError>,
        func_reg: u16,
        argc: u8,
        retc: u8,
    ) -> bool {
        if !old.has_reg(func_reg as int) {
            r is Err && r->Err_0.kind is InternalError && self.failed(old, r->Err_0)
        } else if old.call_stack@.len() >= MAX_CALL_STACK {
            r is Err && r->Err_0.kind is StackOverflow && self.failed(old, r->Err_0)
        } else {
            match old.reg(func_reg as int) {
                LuaValue::Function(h) => self.script_call_outcome(old, r, func_reg, argc, h),
                LuaValue::CFunc(_) => self.native_call_outcome(old, r, func_reg, argc, retc),
                v => r is Err && r->Err_0.kind is InvalidCall && r->Err_0.kind->InvalidCall_0@
                    == Self::spec_not_callable(v) && self.failed(old, r->Err_0),
            }
        }
    }

    #[verifier::rlimit(60)]
    fn call_script(&mut self, func_reg: u16, argc: u8, h: usize) -> (r: Result<(), VMError>)
        requires
            old(self).running(),
            old(self).call_stack@.len() < MAX_CALL_STACK,
        ensures
            final(self).wf(),
            final(self).script_call_outcome(old(self), r, func_reg, argc, h),
    {
        let (name, upvalues) = match self.heap.function_info(h) {
            Some(x) => x,
            None => {
                return Err(self.internal("function value refers to no function"));
            },
        };
        let m = match self.meta_index(&name) {
            Some(m) => m,
            None => {
                return Err(
                    self.internal(
                        "InternalExecutionException: metadata of the function could not be resolved",
                    ),
                );
            },
        };
        let size = self.func_meta[m].1.max_stack_size;
        let ghost values0 = self.value_stack.values@;
        let frame = self.make_stack_frame(name.as_str(), size, Some(func_reg as usize), upvalues)?;
        proof {
            assert(self.value_stack.values@ =~= Self::spec_reserved(
                values0,
                frame.base_offset + size,
            ));
        }
        self.copy_args(frame.base_offset, size, func_reg, argc);
        let ghost copied = *self;
        self.advance_pc();
        proof {
            assert(self.spec_stack_top() == frame.base_offset);
        }
        self.push_frame(frame);
        proof {
            let n = old(self).call_stack@.len();
            assert forall|i: int| 0 <= i < n - 1 implies self.call_stack@[i] == old(self).call_stack@[i] by {
                assert(self.call_stack@[i] == copied.call_stack@[i]);
            }
        }
        Ok(())
    }

    fn fill_results(&mut self, first: usize, count: usize)
        requires
            old(self).wf(),
            old(self).call_stack@.len() > 0,
            first + count <= usize::MAX,
        ensures
            final(self).wf(),
            final(self).call_stack == old(self).call_stack,
            final(self).globals == old(self).globals,
            final(self).func_meta == old(self).func_meta,
            final(self).heap == old(self).heap,
            final(self).log_level == old(self).log_level,
            final(self).pending == old(self).pending,
            final(self).output == old(self).output,
            final(self).value_stack.values@ == Self::spec_filled(
                old(self).value_stack.values@,
                old(self).top(),
                first as int,
                count as int,
            ),
    {
        let n = self.call_stack.len();
        let regs = self.call_stack[n - 1].reg_count;
        let base = self.call_stack[n - 1].base_offset;
        let ghost values = self.value_stack.values@;
        let ghost caller = self.call_stack@[n - 1];
        proof {
            assert(self.value_stack.values@ =~= Self::spec_filled(values, caller, first as int, 0));
            lemma_frames_end(self.call_stack@, values.len(), n - 1);
        }
        let mut i: usize = 0;
        while i < count
            invariant
                i <= count,
                first + count <= usize::MAX,
                n == self.call_stack@.len(),
                n > 0,
                caller == self.call_stack@[n - 1],
                regs == caller.reg_count,
                base == caller.base_offset,
                base + regs <= values.len(),
                self.call_stack == old(self).call_stack,
                self.globals == old(self).globals,
                self.func_meta == old(self).func_meta,
                self.heap == old(self).heap,
                self.log_level == old(self).log_level,
                self.pending == old(self).pending,
                self.output == old(self).output,
                self.value_stack.values@ == Self::spec_filled(
                    values,
                    caller,
                    first as int,
                    i as int,
                ),
            decreases count - i,
        {
            if first + i < regs {
                let _len = self.value_stack.values.len();
                self.value_stack.values[base + first + i] = LuaValue::Nil;
            }
            proof {
                assert(self.value_stack.values@ =~= Self::spec_filled(
                    values,
                    caller,
                    first as int,
                    i + 1,
                ));
            }
            i += 1;
        }
        proof {
            self.lemma_same_frames(old(self));
        }
    }

    fn call_native(&mut self, func: CFunction, func_reg: u16, argc: u8, retc: u8) -> (r: Result<
        (),
        VMError,
    >)
        requires
            old(self).running(),
            old(self).call_stack@.len() < MAX_CALL_STACK,
        ensures
            final(self).wf(),
            final(self).native_call_outcome(old(self), r, func_reg, argc, retc),
    {
        let stack_top = self.get_actual_stack_top();
        let ghost values0 = self.value_stack.values@;
        let mut name = String::from_str("__native_");
        let d = decimal(func_reg as usize);
        name.append(d.as_str());
        let frame = self.make_stack_frame(
            name.as_str(),
            argc as usize,
            Some(func_reg as usize),
            Vec::new(),
        )?;
        let ghost reserved = self.value_stack.values@;
        self.copy_args(frame.base_offset, argc as usize, func_reg, argc);
        self.advance_pc();
        let ghost advanced = *self;
        self.push_frame(frame);
        let ghost pushed = *self;
        proof {
            lemma_frames_end(old(self).call_stack@, values0.len(), old(self).call_stack@.len() - 1);
            assert(pushed.spec_args(argc as int) =~= old(self).spec_call_args(
                func_reg,
                argc as int,
            ));
        }
        proof {
            assert(reserved =~= Self::spec_reserved(values0, stack_top + argc));
            assert(pushed.native_entered(old(self), func_reg, argc));
        }
        let num_results = match func {
            CFunction::Print => lua_builtin_print(self, argc as usize)?,
        };
        let ghost printed = *self;
        let _ = self.pop_frame();
        proof {
            assert(self.call_stack@ =~= advanced.call_stack@);
            let objs = self.heap.all_objects@;
            let before = printed.heap.all_objects@;
            assert forall|x: int| 0 <= x < before.len() implies objs[x] == before[x] by {
                assert(spec_close_state(
                    before,
                    objs,
                    printed.top().out_upvalues@,
                    printed.top().reg_count,
                    printed.value_stack.values@,
                    printed.top().base_offset,
                    printed.top().out_upvalues@.len() as int,
                    x,
                ));
                assert(!spec_listed(
                    printed.top().out_upvalues@,
                    printed.top().reg_count,
                    printed.top().out_upvalues@.len() as int,
                    x,
                ));
            }
            assert(objs =~= before);
        }
        let ghost popped = *self;
        self.value_stack.restore(stack_top);
        proof {
            assert(self.value_stack.values@ =~= values0.subrange(0, stack_top as int));
            assert(spec_frames_wf(self.call_stack@, self.value_stack.values@.len()));
            assert forall|h: usize|
                (#[trigger] spec_open_at(self.heap.all_objects@, h)) is Some implies spec_registered(
                self.call_stack@,
                h,
                spec_open_at(self.heap.all_objects@, h)->0,
            ) by {
                assert(popped.upvalues_wf());
            }
            assert(self.wf());
        }
        let expected: usize = if retc > 0 {
            (retc - 1) as usize
        } else {
            0
        };
        if num_results < expected {
            self.fill_results(func_reg as usize, expected);
        } else {
            proof {
                assert(self.value_stack.values@ =~= Self::spec_filled(
                    self.value_stack.values@,
                    self.top(),
                    func_reg as int,
                    0,
                ));
            }
        }
        proof {
            let n = old(self).call_stack@.len();
            assert forall|i: int| 0 <= i < n - 1 implies self.call_stack@[i] == old(self).call_stack@[i] by {
                assert(self.call_stack@[i] == advanced.call_stack@[i]);
            }
        }
        Ok(())
    }

    /// `Call`; see [`VirtualMachine::call_outcome`].
    pub fn handle_call(&mut self, func_reg: u16, argc: u8, retc: u8) -> (r: Result<(), VMError>)
        requires
            old(self).running(),
        ensures
            final(self).wf(),
            final(self).call_outcome(old(self), r, func_reg, argc, retc),
    {
        let func_val = self.get_reg(func_reg as usize)?;
        if self.call_stack.len() >= MAX_CALL_STACK {
            return Err(self.error(ErrorKind::StackOverflow));
        }
        match func_val {
            LuaValue::Function(h) => self.call_script(func_reg, argc, h),
            LuaValue::CFunc(f) => self.call_native(f, func_reg, argc, retc),
            LuaValue::Nil => Err(
                self.error(
                    ErrorKind::InvalidCall(
                        String::from_str("NullPointerException: attempt to invoke a nil value"),
                    ),
                ),
            ),
            _ => {
                let t = func_val.kind_name();
                let mut msg = String::from_str("TypeMismatchException: object of type '");
                msg.append(t.as_str());
                msg.append("' is not callable");
                Err(self.error(ErrorKind::InvalidCall(msg)))
            },
        }
    }
}

} // verus!
