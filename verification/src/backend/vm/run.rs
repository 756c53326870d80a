//! The run loop: one instruction at a time, a collection where the heap
//! has outgrown its threshold, and the exchange with the host where an
//! instruction needs a number computed or rendered.

use vstd::prelude::*;
use crate::backend::vm::dispatch::arithmetic::{spec_text_of, TextOf};
use crate::backend::vm::error::VMError;
use crate::backend::vm::{Pending, PendingView, Signal, VirtualMachine};
use crate::common::object::LuaValue;
use crate::common::opcode::OpCode;

verus! {

impl VirtualMachine {
    /// The instruction that the top frame is at, if its function is known
    /// and its program counter is within the function's bytecode.
    pub open spec fn spec_current(&self) -> Option<OpCode> {
        if self.call_stack@.len() == 0 {
            None
        } else {
            match self.spec_meta_index(self.top().func_name@) {
                Some(m) => if self.top().pc < self.func_meta@[m].1.bytecode@.len() {
                    Some(self.func_meta@[m].1.bytecode@[self.top().pc as int])
                } else {
                    None
                },
                None => None,
            }
        }
    }

    /// Whether this machine is machine `old` after the instruction at its
    /// program counter has run with result `r`; without such an instruction,
    /// `r` is an `InternalError` and nothing has changed.
    #[verifier::opaque]
    pub open spec fn stepped_with(&self, old: &VirtualMachine, r: Result<(), VMError>) -> bool {
        match old.spec_current() {
            Some(instr) => self.executed(old, r, instr),
            None => r is Err && r->Err_0.kind is InternalError && old.locates(r->Err_0) && *self
                == *old,
        }
    }

    /// Fetches the instruction that the top frame is at and runs it. An
    /// empty call stack, an unknown function and a program counter beyond the
    /// bytecode are `InternalError`s.
    pub fn protected_step(&mut self) -> (r: Result<(), VMError>)
        requires
            old(self).wf(),
        ensures
            final(self).wf(),
            final(self).stepped_with(old(self), r),
    {
        reveal(VirtualMachine::stepped_with);
        let n = self.call_stack.len();
        if n == 0 {
            return Err(
                self.internal(
                    "IllegalStateException: attempt to step execution on an empty call stack",
                ),
            );
        }
        let m = match self.meta_index(&self.call_stack[n - 1].func_name) {
            Some(m) => m,
            None => {
                return Err(
                    self.internal(
                        "ResolutionException: failed to resolve metadata for function symbol",
                    ),
                );
            },
        };
        let pc = self.call_stack[n - 1].pc;
        if pc >= self.func_meta[m].1.bytecode.len() {
            return Err(
                self.internal(
                    "InstructionOutOfBoundsException: PC exceeded bytecode range for function",
                ),
            );
        }
        let instr = self.func_meta[m].1.bytecode[pc];
        self.execute_instruction(instr)
    }

    /// Collects if more is allocated than the threshold allows; the
    /// threshold is doubled first.
    pub fn collect_if_due(&mut self)
        requires
            old(self).wf(),
        ensures
            final(self).wf(),
            if old(self).heap.total_allocated > old(self).heap.threshold {
                final(self).collected(old(self)) && final(self).heap.threshold == if old(self).heap.threshold * 2 > usize::MAX {
                    usize::MAX
                } else {
                    (old(self).heap.threshold * 2) as usize
                }
            } else {
                *final(self) == *old(self)
            },
    {
        if self.heap.check_gc_condition() {
            self.heap.expand_threshold();
            let ghost mid = *self;
            proof {
                assert(self.heap.wf());
                assert(self.heap.unmarked());
                self.lemma_heap_change(old(self));
            }
            let _ = self.collect_garbage();
            proof {
                self.lemma_collected_same(&mid, old(self));
            }
        }
    }

    /// The signal for what is pending, if anything is.
    pub fn request_signal(&self) -> (r: Option<Signal>)
        ensures
            match self.pending@ {
                PendingView::Idle => r is None,
                PendingView::Arith { op, left, right, .. } => r matches Some(
                    Signal::Arith { op: o, left: l, right: x },
                ) && o == op && l == left && x == right,
                PendingView::ConcatLeft { bits, .. } => r matches Some(Signal::Format { bits: b })
                    && b == bits,
                PendingView::ConcatRight { bits, .. } => r matches Some(Signal::Format { bits: b })
                    && b == bits,
            },
    {
        match &self.pending {
            Pending::Idle => None,
            Pending::Arith { op, left, right, .. } => Some(
                Signal::Arith { op: *op, left: *left, right: *right },
            ),
            Pending::ConcatLeft { bits, .. } => Some(Signal::Format { bits: *bits }),
            Pending::ConcatRight { bits, .. } => Some(Signal::Format { bits: *bits }),
        }
    }

    /// Whether this machine is machine `old` after the collection that was
    /// due, if one was: where nothing is pending and more is allocated than
    /// the threshold allows, the threshold is doubled and the heap collected.
    pub open spec fn settled(&self, old: &VirtualMachine) -> bool {
        if old.pending is Idle && old.heap.total_allocated > old.heap.threshold {
            self.collected(old) && self.heap.threshold == if old.heap.threshold * 2 > usize::MAX {
                usize::MAX
            } else {
                (old.heap.threshold * 2) as usize
            }
        } else {
            *self == *old
        }
    }

    /// Whether this machine is machine `old` one turn of the run loop
    /// later: after an instruction that ran without error, and the collection
    /// that was due after it.
    pub open spec fn turned(&self, old: &VirtualMachine) -> bool {
        exists|mid: VirtualMachine, r: Result<(), VMError>| #[trigger]
            mid.stepped_with(old, r) && r is Ok && self.settled(&mid)
    }

    /// Whether this machine is machine `old` after an instruction that
    /// failed with error `e`: what was pending is dropped, and the frames
    /// that the instruction left are popped one by one.
    pub open spec fn faulted(&self, old: &VirtualMachine, e: VMError) -> bool {
        exists|mid: VirtualMachine| #[trigger]
            mid.stepped_with(old, Err(e)) && self.unwound(&mid.idle())
    }

    /// This machine with nothing pending.
    pub open spec fn idle(self) -> VirtualMachine {
        VirtualMachine { pending: Pending::Idle, ..self }
    }

    /// Whether each machine of the trace but the last has nothing pending
    /// and a frame to run, and the next machine is that machine one turn
    /// later.
    pub open spec fn spec_turns(trace: Seq<VirtualMachine>) -> bool {
        forall|i: int|
            0 <= i < trace.len() - 1 ==> {
                &&& (#[trigger] trace[i]).pending is Idle
                &&& trace[i].call_stack@.len() > 0
                &&& trace[i + 1].turned(&trace[i])
            }
    }

    /// Whether this machine and signal `r` are what a run of machine `old`
    /// with `fuel` steps gives, through the machines of the trace: the run
    /// stops at the first machine that has a request pending, which it
    /// signals; or has no frame left, where it is finished; or comes when the
    /// fuel is used up, where it is paused; or whose instruction fails, where
    /// it signals the error and leaves the machine without frames.
    pub open spec fn ran(
        &self,
        old: &VirtualMachine,
        fuel: u64,
        r: Signal,
        trace: Seq<VirtualMachine>,
    ) -> bool {
        let last = trace.last();
        &&& 1 <= trace.len() <= fuel + 1
        &&& trace[0] == *old
        &&& Self::spec_turns(trace)
        &&& match last.pending@ {
            PendingView::Arith { op, left, right, .. } => {
                &&& r matches Signal::Arith { op: o, left: l, right: x }
                &&& o == op
                &&& l == left
                &&& x == right
                &&& *self == last
            },
            PendingView::ConcatLeft { bits, .. } => {
                &&& r matches Signal::Format { bits: b }
                &&& b == bits
                &&& *self == last
            },
            PendingView::ConcatRight { bits, .. } => {
                &&& r matches Signal::Format { bits: b }
                &&& b == bits
                &&& *self == last
            },
            PendingView::Idle => if last.call_stack@.len() == 0 {
                r is Finished && *self == last
            } else if trace.len() == fuel + 1 {
                r is Paused && *self == last
            } else {
                r is Fault && self.faulted(&last, r->Fault_0)
            },
        }
    }

    /// Runs instructions until a request for the host is pending, the
    /// program has ended, `fuel` instructions have run or one of them fails;
    /// see [`VirtualMachine::ran`]. After an error the call stack is empty.
    pub fn run(&mut self, fuel: u64) -> (r: Signal)
        requires
            old(self).wf(),
        ensures
            final(self).wf(),
            exists|trace: Seq<VirtualMachine>| #[trigger] final(self).ran(old(self), fuel, r, trace),
            match r {
                Signal::Finished => final(self).call_stack@.len() == 0 && final(self).pending is Idle,
                Signal::Paused => final(self).call_stack@.len() > 0 && final(self).pending is Idle,
                Signal::Arith { op, left, right } => final(self).pending@ matches PendingView::Arith {
                    op: o,
                    left: l,
                    right: x,
                    ..
                } && o == op && l == left && x == right,
                Signal::Format { bits } => match final(self).pending@ {
                    PendingView::ConcatLeft { bits: b, .. } => b == bits,
                    PendingView::ConcatRight { bits: b, .. } => b == bits,
                    _ => false,
                },
                Signal::Fault(e) => final(self).call_stack@.len() == 0 && final(self).pending is Idle,
            },
            fuel == 0 && old(self).pending is Idle && old(self).call_stack@.len() > 0 ==> r is Paused
                && *final(self) == *old(self),
    {
        let mut left = fuel;
        let ghost mut trace: Seq<VirtualMachine> = seq![*self];
        loop
            invariant
                self.wf(),
                left <= fuel,
                left == fuel ==> *self == *old(self),
                trace.len() == fuel - left + 1,
                trace[0] == *old(self),
                trace.last() == *self,
                Self::spec_turns(trace),
            decreases left,
        {
            match self.request_signal() {
                Some(s) => {
                    proof {
                        assert(self.ran(old(self), fuel, s, trace));
                    }
                    return s;
                },
                None => {},
            }
            if self.call_stack.len() == 0 {
                proof {
                    assert(self.ran(old(self), fuel, Signal::Finished, trace));
                }
                return Signal::Finished;
            }
            if left == 0 {
                proof {
                    assert(self.ran(old(self), fuel, Signal::Paused, trace));
                }
                return Signal::Paused;
            }
            let ghost before = *self;
            left = left - 1;
            let step = self.protected_step();
            match step {
                Ok(()) => {},
                Err(e) => {
                    let ghost mid = *self;
                    self.pending = Pending::Idle;
                    proof {
                        assert(*self == mid.idle());
                        self.lemma_same_frames(&mid);
                    }
                    self.unwind();
                    proof {
                        assert(mid.stepped_with(&before, Err(e)));
                        assert(self.faulted(&before, e));
                        assert(self.ran(old(self), fuel, Signal::Fault(e), trace));
                    }
                    return Signal::Fault(e);
                },
            }
            let ghost mid = *self;
            match &self.pending {
                Pending::Idle => {
                    self.collect_if_due();
                },
                _ => {},
            }
            proof {
                assert(mid.stepped_with(&before, step) && step is Ok);
                assert(self.settled(&mid));
                assert(self.turned(&before));
                let longer = trace.push(*self);
                assert forall|i: int| 0 <= i < longer.len() - 1 implies {
                    &&& (#[trigger] longer[i]).pending is Idle
                    &&& longer[i].call_stack@.len() > 0
                    &&& longer[i + 1].turned(&longer[i])
                } by {
                    if i < trace.len() - 1 {
                        assert(longer[i] == trace[i]);
                        assert(longer[i + 1] == trace[i + 1]);
                    } else {
                        assert(longer[i] == before);
                    }
                }
                trace = longer;
            }
        }
    }

    /// Whether this machine is machine `old` with the number in register
    /// `dest` of its top frame and nothing pending.
    pub open spec fn number_stored(&self, old: &VirtualMachine, dest: u16, bits: u64) -> bool {
        &&& self.call_stack == old.call_stack
        &&& self.globals == old.globals
        &&& self.func_meta == old.func_meta
        &&& self.heap == old.heap
        &&& self.log_level == old.log_level
        &&& self.output == old.output
        &&& self.pending is Idle
        &&& self.value_stack.values@ == old.value_stack.values@.update(
            old.top().base_offset + dest,
            LuaValue::Number(bits),
        )
    }

    /// What handing the result of the pending operation to machine `old`
    /// does: the register that awaits it gets the number, nothing is pending
    /// any more, and the collection that is due is made. Without such an
    /// operation pending, or without the register, an `InternalError`, and
    /// the machine is as before.
    pub open spec fn number_resumed(&self, old: &VirtualMachine, r: Result<(), VMError>, bits: u64) -> bool {
        match old.pending@ {
            PendingView::Arith { dest, .. } => if old.call_stack@.len() > 0 && old.has_reg(
                dest as int,
            ) {
                r is Ok && exists|mid: VirtualMachine| #[trigger]
                    mid.number_stored(old, dest, bits) && self.settled(&mid)
            } else {
                r is Err && r->Err_0.kind is InternalError && old.locates(r->Err_0) && *self == *old
            },
            _ => r is Err && r->Err_0.kind is InternalError && old.locates(r->Err_0) && *self
                == *old,
        }
    }

    /// Hands the machine the result of the operation on numbers that it
    /// waits for; see [`VirtualMachine::number_resumed`].
    pub fn resume_number(&mut self, bits: u64) -> (r: Result<(), VMError>)
        requires
            old(self).wf(),
        ensures
            final(self).wf(),
            final(self).number_resumed(old(self), r, bits),
    {
        let dest = match &self.pending {
            Pending::Arith { dest, .. } => *dest,
            _ => {
                return Err(self.internal("no operation on numbers is pending"));
            },
        };
        if self.call_stack.len() == 0 {
            return Err(self.internal("no frame awaits the number"));
        }
        self.set_reg(dest as usize, LuaValue::Number(bits))?;
        self.pending = Pending::Idle;
        proof {
            self.lemma_same_frames(old(self));
        }
        let ghost mid = *self;
        self.collect_if_due();
        proof {
            assert(mid.number_stored(old(self), dest, bits));
            assert(self.settled(&mid));
        }
        Ok(())
    }

    /// What finishing a concatenation with text `combined` for register
    /// `dest` does to machine `old`, whose request is dropped first: the text
    /// is interned, the register refers to its string, and the collection
    /// that is due is made. Without a frame or the register, an
    /// `InternalError`; where the text is new and does not fit the heap,
    /// `OutOfMemory`; after either, the machine is as `old` with nothing
    /// pending.
    pub open spec fn text_finished(
        &self,
        old: &VirtualMachine,
        r: Result<(), VMError>,
        dest: u16,
        combined: Seq<char>,
    ) -> bool {
        let base = old.idle();
        if old.call_stack@.len() == 0 || !old.has_reg(dest as int) {
            r is Err && r->Err_0.kind is InternalError && base.locates(r->Err_0) && *self == base
        } else if old.heap.interned(combined) is None && old.heap.total_allocated
            + crate::backend::vm::heap::spec_string_size(combined)
            > crate::backend::vm::heap::HARD_MEMORY_LIMIT {
            r is Err && r->Err_0.kind is OutOfMemory && base.locates(r->Err_0) && *self == base
        } else {
            r is Ok && exists|mid: VirtualMachine| #[trigger]
                mid.concatenated(&base, dest as int, combined, 0) && self.settled(&mid)
        }
    }

    /// What handing the text of the pending number to machine `old` does.
    /// Where the left operand was awaited and the right one is a number too,
    /// that number is awaited next. Else the concatenation is finished; see
    /// [`VirtualMachine::text_finished`]. A right operand that is no text, and
    /// a machine that awaits no text, give an `InternalError`; the first drops
    /// the request, the second leaves the machine as it was.
    pub open spec fn text_resumed(
        &self,
        old: &VirtualMachine,
        r: Result<(), VMError>,
        text: Seq<char>,
    ) -> bool {
        match old.pending@ {
            PendingView::ConcatLeft { right, dest, .. } => match spec_text_of(
                old.heap.all_objects@,
                right,
            ) {
                TextOf::Number(b) => {
                    &&& r is Ok
                    &&& self.call_stack == old.call_stack
                    &&& self.value_stack == old.value_stack
                    &&& self.globals == old.globals
                    &&& self.func_meta == old.func_meta
                    &&& self.heap == old.heap
                    &&& self.log_level == old.log_level
                    &&& self.output == old.output
                    &&& self.pending@ == PendingView::ConcatRight { left: text, bits: b, dest }
                },
                TextOf::Text(t) => self.text_finished(old, r, dest, text + t),
                _ => r is Err && r->Err_0.kind is InternalError && old.idle().locates(r->Err_0)
                    && *self == old.idle(),
            },
            PendingView::ConcatRight { left, dest, .. } => self.text_finished(
                old,
                r,
                dest,
                left + text,
            ),
            _ => r is Err && r->Err_0.kind is InternalError && old.locates(r->Err_0) && *self
                == *old,
        }
    }

    /// Hands the machine the text of the number that it waits for; see
    /// [`VirtualMachine::text_resumed`].
    pub fn resume_text(&mut self, text: String) -> (r: Result<(), VMError>)
        requires
            old(self).wf(),
        ensures
            final(self).wf(),
            final(self).text_resumed(old(self), r, text@),
    {
        let mut taken = Pending::Idle;
        core::mem::swap(&mut self.pending, &mut taken);
        proof {
            self.lemma_same_frames(old(self));
            assert(*self == old(self).idle());
        }
        match taken {
            Pending::ConcatLeft { bits, right, dest } => {
                match right {
                    LuaValue::Number(b) => {
                        self.pending = Pending::ConcatRight { left: text, bits: b, dest };
                        proof {
                            self.lemma_same_frames(old(self));
                        }
                        Ok(())
                    },
                    LuaValue::String(h) => {
                        let tail = match self.heap.string_of(h) {
                            Some(t) => t,
                            None => {
                                return Err(self.internal("string value refers to no string"));
                            },
                        };
                        let mut combined = text;
                        combined.append(tail.as_str());
                        self.finish_and_collect(dest, combined)
                    },
                    _ => Err(self.internal("operand of a concatenation is no string")),
                }
            },
            Pending::ConcatRight { left, bits, dest } => {
                let mut combined = left;
                combined.append(text.as_str());
                self.finish_and_collect(dest, combined)
            },
            other => {
                self.pending = other;
                proof {
                    assert(*self == *old(self));
                }
                Err(self.internal("no text is pending"))
            },
        }
    }

    fn finish_and_collect(&mut self, dest: u16, combined: String) -> (r: Result<(), VMError>)
        requires
            old(self).wf(),
            old(self).pending is Idle,
        ensures
            final(self).wf(),
            final(self).text_finished(old(self), r, dest, combined@),
    {
        proof {
            assert(old(self).idle() == *old(self));
        }
        if self.call_stack.len() == 0 {
            return Err(self.internal("no frame awaits the string"));
        }
        self.finish_concat(dest, combined)?;
        let ghost done = *self;
        let ghost h = old(self).spec_intern_handle(combined@);
        proof {
            assert(crate::backend::vm::heap::spec_string_at(done.heap.all_objects@, h) == Some(
                combined@,
            )) by {
                match old(self).heap.interned(combined@) {
                    Some(x) => {
                        old(self).heap.lemma_interned_is_string(combined@);
                    },
                    None => {},
                }
            }
        }
        self.collect_if_due();
        proof {
            assert(done.concatenated(old(self), dest as int, combined@, 0));
            assert(self.settled(&done));
        }
        Ok(())
    }
}

} // verus!
