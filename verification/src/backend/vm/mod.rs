//! The virtual machine: call frames over a shared value stack, the
//! dispatch of instructions, closures with open and closed upvalues, and the
//! collector's roots.
//!
//! The machine computes no floating point. Where an instruction needs the
//! sum of two numbers or the text of a number it stops with a request, and
//! goes on when the host has handed the result back. What `print` writes is
//! kept as pieces for the host to render.

pub mod collector;
pub mod dispatch;
pub mod error;
pub mod heap;
pub mod run;
pub mod setup;
pub mod stack;
pub mod std_lib;

use vstd::prelude::*;
use crate::backend::translator::scanner::Lifetime;
use crate::backend::vm::error::{ErrorKind, VMError};
use crate::backend::vm::heap::{spec_open_at, spec_string_at, Heap, VM_THRESHOLD};
use crate::backend::vm::stack::{GlobalStack, StackFrame};
use crate::common::object::LuaValue;
use crate::common::opcode::OpCode;
use crate::frontend::ir::IRUpVal;

verus! {

/// The call stack takes no more frames than this.
pub const MAX_CALL_STACK: usize = 1000;

/// How much the host reports.
#[derive(Debug, Clone, Copy, PartialEq, Eq, Structural)]
pub enum LogLevel {
    /// The program's output only.
    Release,
    /// Also the progress of compilation and collections.
    Debug,
    /// Also the intermediate representation, the registers and the final state.
    Trace,
}

/// What the machine knows of a function.
#[derive(Debug)]
pub struct FuncMetadata {
    pub bytecode: Vec<OpCode>,
    pub constants: Vec<LuaValue>,
    pub num_locals: usize,
    pub max_stack_size: usize,
    /// The lifetime of the variable in each register.
    pub reg_metadata: Vec<(usize, Lifetime)>,
    /// Where each captured variable comes from, in slot order.
    pub upvalues_metadata: Vec<IRUpVal>,
    /// The names of the prototypes that the function contains.
    pub child_protos: Vec<String>,
}

/// An operation on two numbers that the host computes.
#[derive(Debug, Clone, Copy, PartialEq, Eq, Structural)]
pub enum ArithOp {
    Add,
    Sub,
    Mul,
    Div,
    Mod,
    Pow,
}

/// What the machine waits for.
#[allow(inconsistent_fields)]
#[derive(Debug)]
pub enum Pending {
    /// Nothing: the next instruction can run.
    Idle,
    /// The result of an operation on two numbers, for register `dest`.
    Arith { op: ArithOp, left: u64, right: u64, dest: u16 },
    /// The text of the left operand of a concatenation.
    ConcatLeft { bits: u64, right: LuaValue, dest: u16 },
    /// The text of the right operand of a concatenation.
    ConcatRight { left: String, bits: u64, dest: u16 },
}

/// What the machine waits for, as contracts see it.
#[allow(inconsistent_fields)]
pub enum PendingView {
    Idle,
    Arith { op: ArithOp, left: u64, right: u64, dest: u16 },
    ConcatLeft { bits: u64, right: LuaValue, dest: u16 },
    ConcatRight { left: Seq<char>, bits: u64, dest: u16 },
}

impl View for Pending {
    type V = PendingView;

    open spec fn view(&self) -> PendingView {
        match *self {
            Pending::Idle => PendingView::Idle,
            Pending::Arith { op, left, right, dest } => PendingView::Arith {
                op,
                left,
                right,
                dest,
            },
            Pending::ConcatLeft { bits, right, dest } => PendingView::ConcatLeft {
                bits,
                right,
                dest,
            },
            Pending::ConcatRight { left, bits, dest } => PendingView::ConcatRight {
                left: left@,
                bits,
                dest,
            },
        }
    }
}

/// A piece of what the program has written: text, or a number for the host
/// to render.
#[derive(Debug, Clone, PartialEq)]
pub enum OutputPiece {
    Text(String),
    Number(u64),
}

/// A piece of output, as contracts see it.
pub enum PieceView {
    Text(Seq<char>),
    Number(u64),
}

impl View for OutputPiece {
    type V = PieceView;

    open spec fn view(&self) -> PieceView {
        match *self {
            OutputPiece::Text(s) => PieceView::Text(s@),
            OutputPiece::Number(n) => PieceView::Number(n),
        }
    }
}

/// The pieces of an output, as contracts see them.
pub open spec fn spec_pieces(output: Seq<OutputPiece>) -> Seq<PieceView> {
    output.map_values(|p: OutputPiece| p@)
}

/// Why the machine has stopped.
#[allow(inconsistent_fields)]
#[derive(Debug, PartialEq)]
pub enum Signal {
    /// The call stack is empty: the program has ended.
    Finished,
    /// The steps that were allowed are used up.
    Paused,
    /// The host is to compute `left op right` and hand the result to
    /// `resume_number`.
    Arith { op: ArithOp, left: u64, right: u64 },
    /// The host is to render the number and hand the text to `resume_text`.
    Format { bits: u64 },
    /// A run-time error; the call stack has been cleared.
    Fault(VMError),
}

pub struct VirtualMachine {
    pub call_stack: Vec<StackFrame>,
    pub value_stack: GlobalStack,
    pub globals: Vec<(String, LuaValue)>,
    pub func_meta: Vec<(String, FuncMetadata)>,
    pub heap: Heap,
    pub log_level: LogLevel,
    pub pending: Pending,
    pub output: Vec<OutputPiece>,
}

/// Whether the frames lie on the value stack one after the other: the
/// first starts at 0, each next one starts where the one before ends, and
/// the last one ends within the stack.
pub open spec fn spec_frames_wf(frames: Seq<StackFrame>, stack_len: nat) -> bool {
    &&& frames.len() <= MAX_CALL_STACK
    &&& frames.len() > 0 ==> frames[0].base_offset == 0
    &&& forall|i: int, j: int|
        0 <= i < frames.len() && j == i + 1 && j < frames.len() ==> (#[trigger] frames[j]).base_offset
            == (#[trigger] frames[i]).base_offset + frames[i].reg_count
    &&& frames.len() > 0 ==> frames.last().base_offset + frames.last().reg_count <= stack_len
}

/// Whether frame `f` lists the upvalue object `h` as open on stack place
/// `idx`, a register of the frame.
pub open spec fn spec_lists(frame: StackFrame, h: usize, idx: usize) -> bool {
    exists|e: int|
        0 <= e < frame.out_upvalues@.len() && (#[trigger] frame.out_upvalues@[e]).1 == h
            && frame.out_upvalues@[e].0 < frame.reg_count && idx == frame.base_offset
            + frame.out_upvalues@[e].0
}

/// Whether some frame lists the upvalue object `h` as open on `idx`.
pub open spec fn spec_registered(frames: Seq<StackFrame>, h: usize, idx: usize) -> bool {
    exists|f: int| 0 <= f < frames.len() && spec_lists(#[trigger] frames[f], h, idx)
}

/// In a sequence of frames that lie one after the other, every frame ends
/// at or before the start of every later one: no two windows overlap.
pub proof fn lemma_frames_disjoint(frames: Seq<StackFrame>, stack_len: nat, i: int, j: int)
    requires
        spec_frames_wf(frames, stack_len),
        0 <= i < j < frames.len(),
    ensures
        frames[i].base_offset + frames[i].reg_count <= frames[j].base_offset,
        frames[j].base_offset + frames[j].reg_count <= stack_len,
    decreases j - i,
{
    if i + 1 < j {
        lemma_frames_disjoint(frames, stack_len, i + 1, j);
        assert(frames[i + 1].base_offset == frames[i].base_offset + frames[i].reg_count);
    } else {
        assert(frames[j].base_offset == frames[i].base_offset + frames[i].reg_count);
    }
    lemma_frames_end(frames, stack_len, j);
}

/// Every frame ends within the stack.
pub proof fn lemma_frames_end(frames: Seq<StackFrame>, stack_len: nat, i: int)
    requires
        spec_frames_wf(frames, stack_len),
        0 <= i < frames.len(),
    ensures
        frames[i].base_offset + frames[i].reg_count <= stack_len,
    decreases frames.len() - i,
{
    if i + 1 < frames.len() {
        lemma_frames_end(frames, stack_len, i + 1);
        assert(frames[i + 1].base_offset == frames[i].base_offset + frames[i].reg_count);
    }
}

impl VirtualMachine {
    /// The frames lie on the value stack one after the other.
    pub open spec fn frames_wf(&self) -> bool {
        spec_frames_wf(self.call_stack@, self.value_stack.values@.len())
    }

    /// Every open upvalue object is listed by the frame on whose register
    /// it is open.
    pub open spec fn upvalues_wf(&self) -> bool {
        forall|h: usize|
            (#[trigger] spec_open_at(self.heap.all_objects@, h)) is Some ==> spec_registered(
                self.call_stack@,
                h,
                spec_open_at(self.heap.all_objects@, h)->0,
            )
    }

    /// The machine's invariant.
    pub open spec fn wf(&self) -> bool {
        &&& self.frames_wf()
        &&& self.heap.wf()
        &&& self.heap.unmarked()
        &&& self.upvalues_wf()
    }

    /// Whether an instruction can run: the invariant holds, there is a
    /// frame, and its program counter can go up.
    pub open spec fn running(&self) -> bool {
        &&& self.wf()
        &&& self.call_stack@.len() > 0
        &&& self.call_stack@.last().pc < usize::MAX
    }

    /// The top frame.
    pub open spec fn top(&self) -> StackFrame {
        self.call_stack@.last()
    }

    /// The value of a register of the top frame.
    pub open spec fn reg(&self, idx: int) -> LuaValue {
        self.value_stack.values@[self.top().base_offset + idx]
    }

    /// Whether `idx` is a register of the top frame.
    pub open spec fn has_reg(&self, idx: int) -> bool {
        0 <= idx < self.top().reg_count
    }

    /// Whether the frames but the top one, the globals, the functions, what
    /// is pending and the output are as in `old`, and the top frame is as in
    /// `old` but for its program counter.
    pub open spec fn same_frames_but_pc(&self, old: &VirtualMachine) -> bool {
        &&& self.call_stack@.len() == old.call_stack@.len()
        &&& forall|i: int|
            0 <= i < self.call_stack@.len() - 1 ==> self.call_stack@[i] == old.call_stack@[i]
        &&& self.call_stack@.len() > 0 ==> {
            &&& self.top().func_name == old.top().func_name
            &&& self.top().base_offset == old.top().base_offset
            &&& self.top().reg_count == old.top().reg_count
            &&& self.top().ret_dest == old.top().ret_dest
            &&& self.top().upvalues == old.top().upvalues
            &&& self.top().out_upvalues == old.top().out_upvalues
        }
    }

    /// Whether the machine is as `old` but for the value stack, the heap,
    /// what is pending and the program counter of the top frame.
    pub open spec fn same_context(&self, old: &VirtualMachine) -> bool {
        &&& self.same_frames_but_pc(old)
        &&& self.globals == old.globals
        &&& self.func_meta == old.func_meta
        &&& self.log_level == old.log_level
        &&& self.output == old.output
    }

    /// Whether the machine is `old` after an instruction that gave register
    /// `dest` the value `v` and changed nothing else: the program counter is
    /// one further.
    pub open spec fn stored(&self, old: &VirtualMachine, dest: int, v: LuaValue) -> bool {
        &&& self.same_context(old)
        &&& self.top().pc == old.top().pc + 1
        &&& self.value_stack.values@ == old.value_stack.values@.update(
            old.top().base_offset + dest,
            v,
        )
        &&& self.heap == old.heap
        &&& self.pending == old.pending
    }

    /// What an instruction does to machine `old` that gives register `dest`
    /// the value `v` where its operands are there (`ok`), and otherwise fails
    /// with an `InternalError`.
    pub open spec fn stored_or_internal(
        &self,
        old: &VirtualMachine,
        r: Result<(), VMError>,
        ok: bool,
        dest: u16,
        v: LuaValue,
    ) -> bool {
        match r {
            Ok(()) => ok && old.has_reg(dest as int) && self.stored(old, dest as int, v),
            Err(e) => !(ok && old.has_reg(dest as int)) && e.kind is InternalError && self.failed(old, e),
        }
    }

    /// Whether error `e` is what an instruction that fails on machine `old`
    /// leaves: the error names the place where `old` was, and this machine is
    /// as `old` was.
    pub open spec fn failed(&self, old: &VirtualMachine, e: VMError) -> bool {
        old.locates(e) && *self == *old
    }

    /// Whether the machine is `old` with the program counter one further.
    pub open spec fn advanced(&self, old: &VirtualMachine) -> bool {
        &&& self.same_context(old)
        &&& self.top().pc == old.top().pc + 1
        &&& self.value_stack == old.value_stack
        &&& self.heap == old.heap
        &&& self.pending == old.pending
    }

    /// Whether the error tells where the machine is: the function and the
    /// program counter of the top frame, and the names of the frames.
    pub open spec fn locates(&self, e: VMError) -> bool {
        &&& e.stack_trace@.len() == self.call_stack@.len()
        &&& forall|i: int|
            0 <= i < self.call_stack@.len() ==> (#[trigger] e.stack_trace@[i])@
                == self.call_stack@[i].func_name@
        &&& if self.call_stack@.len() > 0 {
            e.func_name@ == self.top().func_name@ && e.pc == self.top().pc
        } else {
            e.func_name@ == "<unknown_context>"@ && e.pc == 0
        }
    }

    /// A machine without functions, frames, globals and output, at the
    /// release log level, with nothing pending and a new heap: no object, no
    /// interned text, nothing allocated so far, and the first threshold.
    pub fn new() -> (r: Self)
        ensures
            r.wf(),
            r.call_stack@.len() == 0,
            r.value_stack.values@.len() == 0,
            r.globals@.len() == 0,
            r.func_meta@.len() == 0,
            r.heap.all_objects@.len() == 0,
            r.heap.string_pool@.len() == 0,
            r.heap.total_allocated == 0,
            r.heap.threshold == VM_THRESHOLD,
            r.heap.max_allocated == 0,
            r.log_level == LogLevel::Release,
            r.pending is Idle,
            r.output@.len() == 0,
    {
        let r = VirtualMachine {
            call_stack: Vec::new(),
            value_stack: GlobalStack::new(),
            globals: Vec::new(),
            func_meta: Vec::new(),
            heap: Heap::new(),
            log_level: LogLevel::Release,
            pending: Pending::Idle,
            output: Vec::new(),
        };
        r
    }

    /// The error of the given kind, raised where the machine is.
    pub fn error(&self, kind: ErrorKind) -> (r: VMError)
        ensures
            r.kind == kind,
            self.locates(r),
    {
        let n = self.call_stack.len();
        let mut trace: Vec<String> = Vec::new();
        let mut i: usize = 0;
        while i < n
            invariant
                i <= n,
                n == self.call_stack@.len(),
                trace@.len() == i,
                forall|j: int| 0 <= j < i ==> (#[trigger] trace@[j])@ == self.call_stack@[j].func_name@,
            decreases n - i,
        {
            trace.push(self.call_stack[i].func_name.clone());
            i += 1;
        }
        if n > 0 {
            VMError {
                kind,
                func_name: self.call_stack[n - 1].func_name.clone(),
                pc: self.call_stack[n - 1].pc,
                stack_trace: trace,
            }
        } else {
            VMError {
                kind,
                func_name: String::from_str("<unknown_context>"),
                pc: 0,
                stack_trace: trace,
            }
        }
    }

    /// An internal error with the given text.
    pub fn internal(&self, text: &str) -> (r: VMError)
        ensures
            r.kind matches ErrorKind::InternalError(m) && m@ == text@,
            self.locates(r),
    {
        self.error(ErrorKind::InternalError(String::from_str(text)))
    }

    /// Moves the program counter of the top frame one further.
    pub fn advance_pc(&mut self)
        requires
            old(self).running(),
        ensures
            final(self).advanced(old(self)),
            final(self).running() || final(self).top().pc == usize::MAX,
            final(self).wf(),
    {
        let n = self.call_stack.len();
        self.call_stack[n - 1].pc = self.call_stack[n - 1].pc + 1;
        proof {
            self.lemma_same_frames(old(self));
        }
    }

    /// A change that leaves the frames' windows, their lists of open
    /// upvalues, the stack's length and the heap as they are keeps the
    /// invariant.
    pub proof fn lemma_same_frames(&self, old: &VirtualMachine)
        requires
            old.wf(),
            self.same_frames_but_pc(old),
            self.value_stack.values@.len() == old.value_stack.values@.len(),
            self.heap == old.heap,
        ensures
            self.wf(),
    {
        let n = self.call_stack@.len();
        assert forall|i: int| 0 <= i < n implies (#[trigger] self.call_stack@[i]).base_offset
            == old.call_stack@[i].base_offset && self.call_stack@[i].reg_count
            == old.call_stack@[i].reg_count && self.call_stack@[i].out_upvalues
            == old.call_stack@[i].out_upvalues by {
            if i < n - 1 {
                assert(self.call_stack@[i] == old.call_stack@[i]);
            }
        }
        assert forall|h: usize|
            (#[trigger] spec_open_at(self.heap.all_objects@, h)) is Some implies spec_registered(
            self.call_stack@,
            h,
            spec_open_at(self.heap.all_objects@, h)->0,
        ) by {
            let idx = spec_open_at(self.heap.all_objects@, h)->0;
            assert(spec_registered(old.call_stack@, h, idx));
            let f = choose|f: int|
                0 <= f < old.call_stack@.len() && spec_lists(#[trigger] old.call_stack@[f], h, idx);
            assert(spec_lists(self.call_stack@[f], h, idx));
        }
    }

    /// The value of a register of the top frame.
    pub fn get_reg(&self, idx: usize) -> (r: Result<LuaValue, VMError>)
        requires
            self.wf(),
            self.call_stack@.len() > 0,
        ensures
            match r {
                Ok(v) => self.has_reg(idx as int) && v == self.reg(idx as int),
                Err(e) => !self.has_reg(idx as int) && e.kind is InternalError && self.locates(e),
            },
    {
        let n = self.call_stack.len();
        if idx >= self.call_stack[n - 1].reg_count {
            return Err(self.internal("register out of range"));
        }
        Ok(self.call_stack[n - 1].get_reg(idx, &self.value_stack).dup())
    }

    /// Gives a register of the top frame a value.
    pub fn set_reg(&mut self, idx: usize, val: LuaValue) -> (r: Result<(), VMError>)
        requires
            old(self).wf(),
            old(self).call_stack@.len() > 0,
        ensures
            final(self).wf(),
            final(self).call_stack == old(self).call_stack,
            final(self).globals == old(self).globals,
            final(self).func_meta == old(self).func_meta,
            final(self).heap == old(self).heap,
            final(self).log_level == old(self).log_level,
            final(self).pending == old(self).pending,
            final(self).output == old(self).output,
            match r {
                Ok(()) => old(self).has_reg(idx as int) && final(self).value_stack.values@ == old(self).value_stack.values@.update(old(self).top().base_offset + idx, val),
                Err(e) => !old(self).has_reg(idx as int) && e.kind is InternalError && old(self).locates(e) && *final(self) == *old(self),
            },
    {
        let n = self.call_stack.len();
        if idx >= self.call_stack[n - 1].reg_count {
            return Err(self.internal("register out of range"));
        }
        self.call_stack[n - 1].set_reg(idx, val, &mut self.value_stack);
        proof {
            self.lemma_same_frames(old(self));
        }
        Ok(())
    }

    /// The index of the first function with the given name.
    pub open spec fn spec_meta_index(&self, name: Seq<char>) -> Option<int> {
        if exists|i: int| 0 <= i < self.func_meta@.len() && (#[trigger] self.func_meta@[i]).0@ == name {
            Some(
                choose|i: int|
                    0 <= i < self.func_meta@.len() && (#[trigger] self.func_meta@[i]).0@ == name
                        && forall|j: int| 0 <= j < i ==> (#[trigger] self.func_meta@[j]).0@ != name,
            )
        } else {
            None
        }
    }

    /// What the machine knows of the function with the given name.
    pub open spec fn spec_meta(&self, name: Seq<char>) -> Option<FuncMetadata> {
        match self.spec_meta_index(name) {
            Some(i) => Some(self.func_meta@[i].1),
            None => None,
        }
    }

    /// What `spec_meta_index` finds.
    pub proof fn lemma_meta_index(&self, name: Seq<char>)
        ensures
            match self.spec_meta_index(name) {
                Some(i) => 0 <= i < self.func_meta@.len() && self.func_meta@[i].0@ == name
                    && forall|j: int| 0 <= j < i ==> (#[trigger] self.func_meta@[j]).0@ != name,
                None => forall|j: int|
                    0 <= j < self.func_meta@.len() ==> (#[trigger] self.func_meta@[j]).0@ != name,
            },
    {
        if exists|i: int|
            0 <= i < self.func_meta@.len() && (#[trigger] self.func_meta@[i]).0@ == name {
            let w = choose|i: int|
                0 <= i < self.func_meta@.len() && (#[trigger] self.func_meta@[i]).0@ == name;
            Self::lemma_first_named(self.func_meta@, name, w);
        }
    }

    /// Where an entry has the name, a first entry has it.
    pub proof fn lemma_first_named(metas: Seq<(String, FuncMetadata)>, name: Seq<char>, w: int)
        requires
            0 <= w < metas.len(),
            metas[w].0@ == name,
        ensures
            exists|i: int|
                0 <= i < metas.len() && (#[trigger] metas[i]).0@ == name && forall|j: int|
                    0 <= j < i ==> (#[trigger] metas[j]).0@ != name,
        decreases w,
    {
        if exists|j: int| 0 <= j < w && (#[trigger] metas[j]).0@ == name {
            let j = choose|j: int| 0 <= j < w && (#[trigger] metas[j]).0@ == name;
            Self::lemma_first_named(metas, name, j);
        } else {
            assert(metas[w].0@ == name && forall|j: int|
                0 <= j < w ==> (#[trigger] metas[j]).0@ != name);
        }
    }

    /// The first entry with a name is the one that the machine finds.
    pub proof fn lemma_meta_index_is(&self, name: Seq<char>, i: int)
        requires
            0 <= i < self.func_meta@.len(),
            self.func_meta@[i].0@ == name,
            forall|j: int| 0 <= j < i ==> (#[trigger] self.func_meta@[j]).0@ != name,
        ensures
            self.spec_meta_index(name) == Some(i),
    {
        self.lemma_meta_index(name);
        let k = self.spec_meta_index(name)->0;
        if k < i {
            assert(self.func_meta@[k].0@ != name);
        } else if k > i {
            assert(self.func_meta@[i].0@ != name);
        }
    }

    /// The index of the first function with the given name.
    pub fn meta_index(&self, name: &String) -> (r: Option<usize>)
        ensures
            match r {
                Some(i) => i < self.func_meta@.len() && self.func_meta@[i as int].0@ == name@
                    && self.spec_meta_index(name@) == Some(i as int),
                None => self.spec_meta_index(name@) is None,
            },
    {
        let mut i: usize = 0;
        while i < self.func_meta.len()
            invariant
                i <= self.func_meta.len(),
                forall|j: int| 0 <= j < i ==> (#[trigger] self.func_meta@[j]).0@ != name@,
            decreases self.func_meta.len() - i,
        {
            if self.func_meta[i].0 == *name {
                proof {
                    let k = choose|k: int|
                        0 <= k < self.func_meta@.len() && (#[trigger] self.func_meta@[k]).0@
                            == name@ && forall|j: int|
                            0 <= j < k ==> (#[trigger] self.func_meta@[j]).0@ != name@;
                    assert(self.func_meta@[i as int].0@ == name@);
                    if k < i {
                        assert(self.func_meta@[k].0@ != name@);
                    } else if k > i {
                        assert(self.func_meta@[i as int].0@ != name@);
                    }
                }
                return Some(i);
            }
            i += 1;
        }
        None
    }

    /// The value of a global; `None` where it has none.
    pub open spec fn spec_global(&self, name: Seq<char>) -> Option<LuaValue> {
        spec_global_in(self.globals@, name)
    }

    /// The value of a global.
    pub fn get_global(&self, name: &String) -> (r: Option<LuaValue>)
        ensures
            r == self.spec_global(name@),
    {
        let mut i: usize = 0;
        proof {
            lemma_global_in(self.globals@, name@);
        }
        while i < self.globals.len()
            invariant
                i <= self.globals.len(),
                forall|j: int| 0 <= j < i ==> (#[trigger] self.globals@[j]).0@ != name@,
            decreases self.globals.len() - i,
        {
            if self.globals[i].0 == *name {
                proof {
                    lemma_global_in(self.globals@, name@);
                    assert(self.globals@[i as int].0@ == name@);
                }
                return Some(self.globals[i].1.dup());
            }
            i += 1;
        }
        None
    }

    /// Gives a global a value.
    pub fn set_global(&mut self, name: String, val: LuaValue)
        ensures
            final(self).globals@ == spec_global_put(old(self).globals@, name, val),
            final(self).call_stack == old(self).call_stack,
            final(self).value_stack == old(self).value_stack,
            final(self).func_meta == old(self).func_meta,
            final(self).heap == old(self).heap,
            final(self).log_level == old(self).log_level,
            final(self).pending == old(self).pending,
            final(self).output == old(self).output,
    {
        let mut i: usize = 0;
        proof {
            lemma_global_in(self.globals@, name@);
        }
        while i < self.globals.len()
            invariant
                i <= self.globals.len(),
                *self == *old(self),
                forall|j: int| 0 <= j < i ==> (#[trigger] self.globals@[j]).0@ != name@,
            decreases self.globals.len() - i,
        {
            if self.globals[i].0 == name {
                proof {
                    lemma_global_in(self.globals@, name@);
                    assert(self.globals@[i as int].0@ == name@);
                }
                self.globals[i].1 = val;
                proof {
                    assert(self.globals@ =~= spec_global_put(old(self).globals@, name, val));
                }
                return ;
            }
            i += 1;
        }
        self.globals.push((name, val));
    }
}

/// The index of the first global with the given name.
pub open spec fn spec_global_index(globals: Seq<(String, LuaValue)>, name: Seq<char>) -> Option<int>
    decreases globals.len(),
{
    if globals.len() == 0 {
        None
    } else {
        match spec_global_index(globals.drop_last(), name) {
            Some(i) => Some(i),
            None => if globals.last().0@ == name {
                Some(globals.len() - 1)
            } else {
                None
            },
        }
    }
}

/// The value of the global with the given name.
pub open spec fn spec_global_in(globals: Seq<(String, LuaValue)>, name: Seq<char>) -> Option<LuaValue> {
    match spec_global_index(globals, name) {
        Some(i) => Some(globals[i].1),
        None => None,
    }
}

/// The globals after one is given a value: its entry gets the value, or a
/// new entry is put at the end.
pub open spec fn spec_global_put(globals: Seq<(String, LuaValue)>, name: String, val: LuaValue) -> Seq<
    (String, LuaValue),
> {
    match spec_global_index(globals, name@) {
        Some(i) => globals.update(i, (globals[i].0, val)),
        None => globals.push((name, val)),
    }
}

/// What `spec_global_index` finds.
pub proof fn lemma_global_in(globals: Seq<(String, LuaValue)>, name: Seq<char>)
    ensures
        match spec_global_index(globals, name) {
            Some(i) => 0 <= i < globals.len() && globals[i].0@ == name && forall|j: int|
                0 <= j < i ==> (#[trigger] globals[j]).0@ != name,
            None => forall|j: int| 0 <= j < globals.len() ==> (#[trigger] globals[j]).0@ != name,
        },
    decreases globals.len(),
{
    if globals.len() > 0 {
        lemma_global_in(globals.drop_last(), name);
        match spec_global_index(globals.drop_last(), name) {
            Some(i) => {
                assert(globals.drop_last()[i] == globals[i]);
                assert forall|j: int| 0 <= j < i implies (#[trigger] globals[j]).0@ != name by {
                    assert(globals.drop_last()[j] == globals[j]);
                }
            },
            None => {
                assert forall|j: int| 0 <= j < globals.len() - 1 implies (#[trigger] globals[j]).0@
                    != name by {
                    assert(globals.drop_last()[j] == globals[j]);
                }
            },
        }
    }
}

impl VirtualMachine {
    /// A change of the value stack's contents, of what is pending and of
    /// the heap that leaves the frames as they are and opens no upvalue
    /// keeps the invariant.
    pub proof fn lemma_heap_change(&self, old: &VirtualMachine)
        requires
            old.wf(),
            self.same_frames_but_pc(old),
            self.value_stack.values@.len() >= old.value_stack.values@.len(),
            self.heap.wf(),
            self.heap.unmarked(),
            forall|h: usize|
                (#[trigger] spec_open_at(self.heap.all_objects@, h)) is Some ==> spec_open_at(
                    old.heap.all_objects@,
                    h,
                ) == spec_open_at(self.heap.all_objects@, h),
        ensures
            self.wf(),
    {
        let n = self.call_stack@.len();
        assert forall|i: int| 0 <= i < n implies (#[trigger] self.call_stack@[i]).base_offset
            == old.call_stack@[i].base_offset && self.call_stack@[i].reg_count
            == old.call_stack@[i].reg_count && self.call_stack@[i].out_upvalues
            == old.call_stack@[i].out_upvalues by {
            if i < n - 1 {
                assert(self.call_stack@[i] == old.call_stack@[i]);
            }
        }
        assert forall|h: usize|
            (#[trigger] spec_open_at(self.heap.all_objects@, h)) is Some implies spec_registered(
            self.call_stack@,
            h,
            spec_open_at(self.heap.all_objects@, h)->0,
        ) by {
            let idx = spec_open_at(self.heap.all_objects@, h)->0;
            assert(spec_open_at(old.heap.all_objects@, h) is Some);
            assert(spec_registered(old.call_stack@, h, idx));
            let f = choose|f: int|
                0 <= f < old.call_stack@.len() && spec_lists(#[trigger] old.call_stack@[f], h, idx);
            assert(spec_lists(self.call_stack@[f], h, idx));
        }
    }

    /// The constant of the running function with the given index.
    pub open spec fn spec_constant(&self, idx: int) -> Option<LuaValue> {
        match self.spec_meta_index(self.top().func_name@) {
            Some(m) => if 0 <= idx < self.func_meta@[m].1.constants@.len() {
                Some(self.func_meta@[m].1.constants@[idx])
            } else {
                None
            },
            None => None,
        }
    }

    /// The text of the string constant with the given index.
    pub open spec fn spec_constant_string(&self, idx: int) -> Option<Seq<char>> {
        match self.spec_constant(idx) {
            Some(LuaValue::String(h)) => spec_string_at(self.heap.all_objects@, h),
            _ => None,
        }
    }

    /// The constant of the running function with the given index.
    pub fn get_constant(&self, idx: usize) -> (r: Result<LuaValue, VMError>)
        requires
            self.call_stack@.len() > 0,
        ensures
            match r {
                Ok(v) => self.spec_constant(idx as int) == Some(v),
                Err(e) => self.spec_constant(idx as int) is None && e.kind is InternalError
                    && self.locates(e),
            },
    {
        let n = self.call_stack.len();
        match self.meta_index(&self.call_stack[n - 1].func_name) {
            Some(m) => {
                if idx < self.func_meta[m].1.constants.len() {
                    Ok(self.func_meta[m].1.constants[idx].dup())
                } else {
                    Err(self.internal("constant index out of range"))
                }
            },
            None => Err(self.internal("metadata of the running function not found")),
        }
    }

    /// The text of the string constant with the given index.
    pub fn get_constant_string(&self, idx: usize) -> (r: Result<String, VMError>)
        requires
            self.call_stack@.len() > 0,
        ensures
            match r {
                Ok(s) => self.spec_constant_string(idx as int) == Some(s@),
                Err(e) => self.spec_constant_string(idx as int) is None && e.kind is InternalError
                    && self.locates(e),
            },
    {
        match self.get_constant(idx)? {
            LuaValue::String(h) => match self.heap.string_of(h) {
                Some(s) => Ok(s),
                None => Err(self.internal("LinkageError: string constant refers to no string")),
            },
            _ => Err(
                self.internal(
                    "LinkageError: expected string constant was not found or has invalid type",
                ),
            ),
        }
    }

    /// Gives register `dest` a value and moves the program counter one
    /// further.
    pub fn store(&mut self, dest: u16, v: LuaValue) -> (r: Result<(), VMError>)
        requires
            old(self).running(),
        ensures
            final(self).wf(),
            match r {
                Ok(()) => old(self).has_reg(dest as int) && final(self).stored(
                    old(self),
                    dest as int,
                    v,
                ),
                Err(e) => !old(self).has_reg(dest as int) && e.kind is InternalError && old(self).locates(e) && *final(self) == *old(self),
            },
    {
        let n = self.call_stack.len();
        if dest as usize >= self.call_stack[n - 1].reg_count {
            return Err(self.internal("register out of range"));
        }
        self.call_stack[n - 1].set_reg(dest as usize, v, &mut self.value_stack);
        self.call_stack[n - 1].pc = self.call_stack[n - 1].pc + 1;
        proof {
            self.lemma_same_frames(old(self));
        }
        Ok(())
    }

    /// Whether register `idx` has outlived a variable that it held: the
    /// running function lists a lifetime for the register that ended before
    /// the program counter.
    pub open spec fn spec_expired(&self, idx: int) -> bool {
        match self.spec_meta_index(self.top().func_name@) {
            Some(m) => exists|k: int|
                0 <= k < self.func_meta@[m].1.reg_metadata@.len() && (
                #[trigger] self.func_meta@[m].1.reg_metadata@[k]).0 == idx && self.top().pc
                    > self.func_meta@[m].1.reg_metadata@[k].1.end,
            None => false,
        }
    }

    /// Clears the registers of the top frame that have outlived a variable
    /// which they held: each of them holds `Nil` afterwards, and nothing else
    /// changes. Without a frame, nothing changes.
    pub fn cleanup_expired_registers(&mut self)
        requires
            old(self).wf(),
        ensures
            final(self).wf(),
            final(self).call_stack == old(self).call_stack,
            final(self).globals == old(self).globals,
            final(self).func_meta == old(self).func_meta,
            final(self).heap == old(self).heap,
            final(self).log_level == old(self).log_level,
            final(self).pending == old(self).pending,
            final(self).output == old(self).output,
            final(self).value_stack.values@.len() == old(self).value_stack.values@.len(),
            forall|i: int|
                0 <= i < old(self).value_stack.values@.len() ==> #[trigger] final(self).value_stack.values@[i] == if old(self).call_stack@.len() > 0 && old(self).top().base_offset <= i < old(self).top().base_offset + old(self).top().reg_count
                    && old(self).spec_expired(i - old(self).top().base_offset) {
                    LuaValue::Nil
                } else {
                    old(self).value_stack.values@[i]
                },
    {
        let n = self.call_stack.len();
        if n == 0 {
            return ;
        }
        let m = match self.meta_index(&self.call_stack[n - 1].func_name) {
            Some(m) => m,
            None => {
                return ;
            },
        };
        let ghost regs = self.func_meta@[m as int].1.reg_metadata@;
        let ghost before = old(self).value_stack.values@;
        proof {
            lemma_frames_end(self.call_stack@, self.value_stack.values@.len(), n - 1);
        }
        let base = self.call_stack[n - 1].base_offset;
        let count = self.call_stack[n - 1].reg_count;
        let pc = self.call_stack[n - 1].pc;
        let _len = self.value_stack.values.len();
        let mut k: usize = 0;
        while k < self.func_meta[m].1.reg_metadata.len()
            invariant
                k <= regs.len(),
                m < self.func_meta@.len(),
                regs == self.func_meta@[m as int].1.reg_metadata@,
                self.call_stack == old(self).call_stack,
                self.globals == old(self).globals,
                self.func_meta == old(self).func_meta,
                self.heap == old(self).heap,
                self.log_level == old(self).log_level,
                self.pending == old(self).pending,
                self.output == old(self).output,
                n == self.call_stack@.len(),
                n > 0,
                base == self.top().base_offset,
                count == self.top().reg_count,
                pc == self.top().pc,
                base + count <= before.len(),
                before == old(self).value_stack.values@,
                self.value_stack.values@.len() == before.len(),
                forall|i: int|
                    0 <= i < before.len() ==> #[trigger] self.value_stack.values@[i] == if base <= i
                        < base + count && (exists|j: int|
                        0 <= j < k && (#[trigger] regs[j]).0 == i - base && pc > regs[j].1.end) {
                        LuaValue::Nil
                    } else {
                        before[i]
                    },
            decreases regs.len() - k,
        {
            let idx = self.func_meta[m].1.reg_metadata[k].0;
            let end = self.func_meta[m].1.reg_metadata[k].1.end;
            let ghost values = self.value_stack.values@;
            if pc > end && idx < count {
                self.call_stack[n - 1].set_reg(idx, LuaValue::Nil, &mut self.value_stack);
            }
            proof {
                assert forall|i: int| 0 <= i < before.len() implies #[trigger] self.value_stack.values@[i]
                    == if base <= i < base + count && (exists|j: int|
                    0 <= j < k + 1 && (#[trigger] regs[j]).0 == i - base && pc > regs[j].1.end) {
                    LuaValue::Nil
                } else {
                    before[i]
                } by {
                    let was = exists|j: int|
                        0 <= j < k && (#[trigger] regs[j]).0 == i - base && pc > regs[j].1.end;
                    let now = exists|j: int|
                        0 <= j < k + 1 && (#[trigger] regs[j]).0 == i - base && pc > regs[j].1.end;
                    if was {
                        let j = choose|j: int|
                            0 <= j < k && (#[trigger] regs[j]).0 == i - base && pc > regs[j].1.end;
                        assert(regs[j].0 == i - base && pc > regs[j].1.end);
                    }
                    if now && !was {
                        let j = choose|j: int|
                            0 <= j < k + 1 && (#[trigger] regs[j]).0 == i - base && pc
                                > regs[j].1.end;
                        assert(j == k);
                    }
                    if regs[k as int].0 == i - base && pc > regs[k as int].1.end {
                        assert(now);
                    }
                    assert(values[i] == if base <= i < base + count && was {
                        LuaValue::Nil
                    } else {
                        before[i]
                    });
                }
            }
            k += 1;
        }
        proof {
            assert(self.wf()) by {
                assert(self.frames_wf());
                assert(self.upvalues_wf());
            }
        }
    }
}

/// After a global is given a value it has that value, and every other
/// global has the value that it had.
pub proof fn lemma_global_put(globals: Seq<(String, LuaValue)>, name: String, val: LuaValue)
    ensures
        spec_global_in(spec_global_put(globals, name, val), name@) == Some(val),
        forall|other: Seq<char>|
            other != name@ ==> spec_global_in(spec_global_put(globals, name, val), other)
                == spec_global_in(globals, other),
{
    let after = spec_global_put(globals, name, val);
    lemma_global_in(globals, name@);
    lemma_global_in(after, name@);
    match spec_global_index(globals, name@) {
        Some(i) => {
            assert(after[i].0@ == name@);
            match spec_global_index(after, name@) {
                Some(k) => {
                    if k < i {
                        assert(after[k].0 == globals[k].0);
                    }
                },
                None => {},
            }
        },
        None => {
            assert(after[globals.len() as int].0@ == name@);
            match spec_global_index(after, name@) {
                Some(k) => {
                    if k < globals.len() {
                        assert(after[k] == globals[k]);
                    }
                },
                None => {},
            }
        },
    }
    assert forall|other: Seq<char>| other != name@ implies spec_global_in(after, other)
        == spec_global_in(globals, other) by {
        lemma_global_in(globals, other);
        lemma_global_in(after, other);
        match spec_global_index(globals, other) {
            Some(i) => {
                assert(after[i].0@ == other);
                match spec_global_index(after, other) {
                    Some(k) => {
                        if k < i {
                            assert(after[k].0@ == globals[k].0@);
                        } else if k > i {
                        }
                    },
                    None => {},
                }
                assert(after[i].1 == globals[i].1);
            },
            None => {
                match spec_global_index(after, other) {
                    Some(k) => {
                        if k < globals.len() {
                            assert(after[k].0@ == globals[k].0@);
                        }
                    },
                    None => {},
                }
            },
        }
    }
}

} // verus!
