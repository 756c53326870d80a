//! Bringing a machine to the start of a program: the metadata of the
//! functions, the built-in library, the interning of string constants, and
//! the entry frame.

use vstd::prelude::*;
use crate::backend::translator::emitter::{spec_emit, BytecodeEmitter, EmitError};
use crate::backend::translator::scanner::{FunctionScan, Lifetime, Scanner};
use crate::backend::vm::heap::{spec_open_at, spec_string_size, Heap, HARD_MEMORY_LIMIT};
use crate::backend::vm::{
    spec_global_in, FuncMetadata, LogLevel, VirtualMachine, MAX_CALL_STACK,
};
use crate::common::object::{CFunction, LuaValue};
use crate::common::opcode::OpCode;
use crate::frontend::ir::{IRFunction, IRGenerator, IRModule, IRUpVal};

verus! {

/// Why a machine could not be initialised.
#[derive(Debug, PartialEq)]
pub enum InitError {
    /// The scanner has not scanned the function of this name.
    NotScanned(String),
    /// The function of this name could not be lowered.
    Emit(String, EmitError),
    /// The frame of the function of this name would outgrow the machine word.
    StackTooLarge(String),
    /// A string constant does not fit the heap.
    OutOfMemory,
    /// The module has no function `_start`.
    MissingEntry,
    /// The call stack is full.
    StackOverflow,
}

/// Whether `after` is the constant `before` made ready for the run: a
/// string that awaited interning refers to the string object under which the
/// heap has interned its text; any other constant is as it was.
pub open spec fn spec_finalized(heap: Heap, before: LuaValue, after: LuaValue) -> bool {
    match before {
        LuaValue::TempString(s) => match after {
            LuaValue::String(h) => heap.interned(s@) == Some(h),
            _ => false,
        },
        _ => after == before,
    }
}

/// Whether entry `a` is entry `b` with the first `upto` of its constants
/// made ready for the run, and nothing else changed.
pub open spec fn spec_entry_finalized(
    heap: Heap,
    a: (String, FuncMetadata),
    b: (String, FuncMetadata),
    upto: int,
) -> bool {
    &&& a.0 == b.0
    &&& a.1.bytecode == b.1.bytecode
    &&& a.1.num_locals == b.1.num_locals
    &&& a.1.max_stack_size == b.1.max_stack_size
    &&& a.1.reg_metadata == b.1.reg_metadata
    &&& a.1.upvalues_metadata == b.1.upvalues_metadata
    &&& a.1.child_protos == b.1.child_protos
    &&& a.1.constants@.len() == b.1.constants@.len()
    &&& forall|k: int|
        0 <= k < b.1.constants@.len() && k < upto ==> spec_finalized(
            heap,
            #[trigger] b.1.constants@[k],
            a.1.constants@[k],
        )
    &&& forall|k: int|
        0 <= k < b.1.constants@.len() && k >= upto ==> #[trigger] a.1.constants@[k]
            == b.1.constants@[k]
}

/// The texts that await interning among the first `k` constants, in their
/// order.
pub open spec fn spec_pool_texts(consts: Seq<LuaValue>, k: int) -> Seq<Seq<char>>
    decreases k,
{
    if k <= 0 {
        Seq::empty()
    } else {
        match consts[k - 1] {
            LuaValue::TempString(s) => spec_pool_texts(consts, k - 1).push(s@),
            _ => spec_pool_texts(consts, k - 1),
        }
    }
}

/// The texts that await interning in the first `m` functions, in their
/// order.
pub open spec fn spec_meta_texts(metas: Seq<(String, FuncMetadata)>, m: int) -> Seq<Seq<char>>
    decreases m,
{
    if m <= 0 {
        Seq::empty()
    } else {
        spec_meta_texts(metas, m - 1) + spec_pool_texts(
            metas[m - 1].1.constants@,
            metas[m - 1].1.constants@.len() as int,
        )
    }
}

/// The texts that await interning before constant `k` of function `m`.
pub open spec fn spec_texts_before(metas: Seq<(String, FuncMetadata)>, m: int, k: int) -> Seq<
    Seq<char>,
> {
    spec_meta_texts(metas, m) + spec_pool_texts(metas[m].1.constants@, k)
}

/// Whether heap `after` is heap `before` with the texts interned, one
/// after the other.
pub open spec fn spec_interns(before: Heap, after: Heap, texts: Seq<Seq<char>>) -> bool
    decreases texts.len(),
{
    if texts.len() == 0 {
        after == before
    } else {
        exists|mid: Heap, h: usize| #[trigger]
            after.interned_into(&mid, texts.last(), h) && spec_interns(
                before,
                mid,
                texts.drop_last(),
            )
    }
}

/// Whether the interning of the functions' texts into heap `before` stops
/// at heap `after` for want of memory: the texts before some constant are
/// interned, and the text of that constant is not and does not fit.
pub open spec fn spec_intern_fails(before: Heap, after: Heap, metas: Seq<(String, FuncMetadata)>) -> bool {
    exists|m: int, k: int|
        {
            &&& 0 <= m < metas.len()
            &&& 0 <= k < metas[m].1.constants@.len()
            &&& #[trigger] spec_interns(before, after, spec_texts_before(metas, m, k))
            &&& metas[m].1.constants@[k] matches LuaValue::TempString(s)
            &&& after.interned(s@) is None
            &&& after.total_allocated + spec_string_size(s@) > HARD_MEMORY_LIMIT
        }
}

/// A constant that is ready for the run stays so when another text is
/// interned.
pub proof fn lemma_finalized_later(mid: Heap, after: Heap, text: Seq<char>, h: usize, v: LuaValue, w: LuaValue)
    requires
        mid.pool_wf(),
        after.pool_wf(),
        after.interned_into(&mid, text, h),
        spec_finalized(mid, v, w),
    ensures
        spec_finalized(after, v, w),
{
    match (v, w) {
        (LuaValue::TempString(s), LuaValue::String(x)) => {
            if mid.interned(text) is None {
                let i = choose|i: int|
                    0 <= i < mid.string_pool.len() && #[trigger] mid.string_pool[i].0@ == s@;
                mid.lemma_interned(s@);
                assert(after.string_pool@.subrange(0, mid.string_pool@.len() as int)[i]
                    == after.string_pool@[i]);
                after.lemma_interned(s@);
            }
        },
        _ => {},
    }
}

/// What of a function's metadata does not depend on its bytecode: the
/// number of its locals, the size of its frame, which is two more than the
/// scanner's, the register and the lifetime of each variable, the
/// descriptors of its captured variables and the names of the prototypes
/// that it contains.
pub open spec fn spec_describes(meta: FuncMetadata, func: IRFunction, scan: FunctionScan) -> bool {
    &&& meta.num_locals == scan.num_locals
    &&& meta.max_stack_size == scan.max_stack + 2
    &&& meta.upvalues_metadata@.len() == func.upvalues@.len()
    &&& forall|i: int|
        0 <= i < func.upvalues@.len() ==> #[trigger] meta.upvalues_metadata@[i]
            == func.upvalues@[i].1
    &&& meta.child_protos@.len() == func.sub_functions@.len()
    &&& forall|i: int|
        0 <= i < func.sub_functions@.len() ==> (#[trigger] meta.child_protos@[i])@
            == func.sub_functions@[i]@
    &&& meta.reg_metadata@.len() == if scan.reg_map@.len() <= scan.lifetimes@.len() {
        scan.reg_map@.len()
    } else {
        scan.lifetimes@.len()
    }
    &&& forall|i: int|
        0 <= i < meta.reg_metadata@.len() ==> #[trigger] meta.reg_metadata@[i] == (
            scan.reg_map@[i].1,
            scan.lifetimes@[i].1,
        )
}

/// Why the metadata of a function cannot be built, if it cannot: the
/// emitter's error, or a frame that would outgrow the machine word.
pub open spec fn spec_build_failure(func: IRFunction, scan: FunctionScan) -> Option<InitError> {
    match spec_emit(func, scan) {
        Err(e) => Some(InitError::Emit(func.name, e)),
        Ok(_) => if scan.max_stack + 2 > usize::MAX {
            Some(InitError::StackTooLarge(func.name))
        } else {
            None
        },
    }
}

/// Whether the metadata is that of the function: its bytecode and
/// constants as the emitter lowers them, and what [`spec_describes`] says.
pub open spec fn spec_built(meta: FuncMetadata, func: IRFunction, scan: FunctionScan) -> bool {
    &&& spec_emit(func, scan) == Ok::<(Seq<OpCode>, Seq<LuaValue>), EmitError>(
        (meta.bytecode@, meta.constants@),
    )
    &&& spec_describes(meta, func, scan)
}

/// The metadata of a function; see [`spec_built`] and
/// [`spec_build_failure`].
pub fn build_metadata(func: &IRFunction, scan: &FunctionScan) -> (r: Result<FuncMetadata, InitError>)
    requires
        scan.distinct_keys(),
    ensures
        match r {
            Ok(meta) => spec_build_failure(*func, *scan) is None && spec_built(meta, *func, *scan),
            Err(e) => spec_build_failure(*func, *scan) == Some(e),
        },
{
    let emitter = BytecodeEmitter::new(func, scan);
    let (bytecode, constants) = match emitter.emit() {
        Ok(x) => x,
        Err(e) => {
            return Err(InitError::Emit(func.name.clone(), e));
        },
    };
    if scan.max_stack > usize::MAX - 2 {
        return Err(InitError::StackTooLarge(func.name.clone()));
    }
    let mut reg_metadata: Vec<(usize, Lifetime)> = Vec::new();
    let mut i: usize = 0;
    while i < scan.reg_map.len() && i < scan.lifetimes.len()
        invariant
            i <= scan.reg_map@.len(),
            i <= scan.lifetimes@.len(),
            reg_metadata@.len() == i,
            forall|j: int|
                0 <= j < i ==> #[trigger] reg_metadata@[j] == (
                    scan.reg_map@[j].1,
                    scan.lifetimes@[j].1,
                ),
        decreases scan.reg_map@.len() - i,
    {
        reg_metadata.push((scan.reg_map[i].1, scan.lifetimes[i].1));
        i += 1;
    }
    let mut upvalues_metadata: Vec<IRUpVal> = Vec::new();
    let mut u: usize = 0;
    while u < func.upvalues.len()
        invariant
            u <= func.upvalues@.len(),
            upvalues_metadata@.len() == u,
            forall|j: int| 0 <= j < u ==> #[trigger] upvalues_metadata@[j] == func.upvalues@[j].1,
        decreases func.upvalues@.len() - u,
    {
        upvalues_metadata.push(func.upvalues[u].1);
        u += 1;
    }
    let mut child_protos: Vec<String> = Vec::new();
    let mut c: usize = 0;
    while c < func.sub_functions.len()
        invariant
            c <= func.sub_functions@.len(),
            child_protos@.len() == c,
            forall|j: int| 0 <= j < c ==> (#[trigger] child_protos@[j])@ == func.sub_functions@[j]@,
        decreases func.sub_functions@.len() - c,
    {
        child_protos.push(func.sub_functions[c].clone());
        c += 1;
    }
    Ok(
        FuncMetadata {
            bytecode,
            constants,
            num_locals: scan.num_locals,
            max_stack_size: scan.max_stack + 2,
            reg_metadata,
            upvalues_metadata,
            child_protos,
        },
    )
}

impl VirtualMachine {
    /// Files the metadata under the name; metadata that was filed under the
    /// same name before is replaced.
    pub fn insert_meta(&mut self, name: String, meta: FuncMetadata)
        requires
            old(self).wf(),
        ensures
            final(self).wf(),
            final(self).call_stack == old(self).call_stack,
            final(self).value_stack == old(self).value_stack,
            final(self).globals == old(self).globals,
            final(self).heap == old(self).heap,
            final(self).log_level == old(self).log_level,
            final(self).pending == old(self).pending,
            final(self).output == old(self).output,
            match old(self).spec_meta_index(name@) {
                Some(i) => final(self).func_meta@.len() == old(self).func_meta@.len() && final(self).func_meta@[i].0@ == name@ && final(self).func_meta@[i].1 == meta && forall|
                    j: int,
                |
                    0 <= j < old(self).func_meta@.len() && j != i ==> final(self).func_meta@[j]
                        == old(self).func_meta@[j],
                None => final(self).func_meta@ == old(self).func_meta@.push((name, meta)),
            },
            forall|other: Seq<char>| #[trigger]
                final(self).spec_meta(other) == if other == name@ {
                    Some(meta)
                } else {
                    old(self).spec_meta(other)
                },
    {
        let ghost before = *self;
        proof {
            before.lemma_meta_index(name@);
        }
        match self.meta_index(&name) {
            Some(i) => {
                self.func_meta[i].1 = meta;
            },
            None => {
                self.func_meta.push((name, meta));
            },
        }
        proof {
            self.lemma_same_frames(old(self));
            assert forall|other: Seq<char>| #[trigger]
                self.spec_meta(other) == if other == name@ {
                    Some(meta)
                } else {
                    before.spec_meta(other)
                } by {
                before.lemma_meta_index(other);
                match before.spec_meta_index(other) {
                    Some(k) => {
                        assert(self.func_meta@[k].0@ == other);
                        assert forall|j: int| 0 <= j < k implies (
                        #[trigger] self.func_meta@[j]).0@ != other by {
                            assert(before.func_meta@[j].0@ != other);
                        }
                        self.lemma_meta_index_is(other, k);
                    },
                    None => {
                        if other == name@ {
                            let k = before.func_meta@.len() as int;
                            assert forall|j: int| 0 <= j < k implies (
                            #[trigger] self.func_meta@[j]).0@ != other by {
                                assert(before.func_meta@[j].0@ != other);
                            }
                            self.lemma_meta_index_is(other, k);
                        } else {
                            self.lemma_meta_index(other);
                            if self.spec_meta_index(other) is Some {
                                let k = self.spec_meta_index(other)->0;
                                if k < before.func_meta@.len() {
                                    assert(before.func_meta@[k].0@ != other);
                                }
                            }
                        }
                    },
                }
            }
        }
    }

    /// Whether this machine is machine `old` with the built-in functions
    /// installed: the global `print` is the built-in of that name, and every
    /// other global is as it was.
    pub open spec fn library_loaded(&self, old: &VirtualMachine) -> bool {
        &&& self.call_stack == old.call_stack
        &&& self.value_stack == old.value_stack
        &&& self.func_meta == old.func_meta
        &&& self.heap == old.heap
        &&& self.log_level == old.log_level
        &&& self.pending == old.pending
        &&& self.output == old.output
        &&& spec_global_in(self.globals@, "print"@) == Some(LuaValue::CFunc(CFunction::Print))
        &&& forall|other: Seq<char>|
            other != "print"@ ==> #[trigger] spec_global_in(self.globals@, other) == spec_global_in(
                old.globals@,
                other,
            )
    }

    /// Installs the built-in functions: `print`.
    pub fn load_standard_library(&mut self)
        requires
            old(self).wf(),
        ensures
            final(self).wf(),
            final(self).library_loaded(old(self)),
    {
        let name = String::from_str("print");
        proof {
            crate::backend::vm::lemma_global_put(
                self.globals@,
                name,
                LuaValue::CFunc(CFunction::Print),
            );
        }
        self.set_global(name, LuaValue::CFunc(CFunction::Print));
        proof {
            self.lemma_same_frames(old(self));
        }
    }

    /// Whether the functions are those of `old` with their constants made
    /// ready for the run; see [`spec_finalized`].
    pub open spec fn constants_finalized(&self, old: &VirtualMachine) -> bool {
        &&& self.func_meta@.len() == old.func_meta@.len()
        &&& forall|m: int|
            0 <= m < old.func_meta@.len() ==> spec_entry_finalized(
                self.heap,
                #[trigger] self.func_meta@[m],
                old.func_meta@[m],
                old.func_meta@[m].1.constants@.len() as int,
            )
    }

    /// Whether this machine and `r` are what making the constants of
    /// machine `old` ready for the run gives: with every text interned, each
    /// string constant refers to its string object; or, where a text does not
    /// fit the heap, `OutOfMemory` with the texts before it interned.
    pub open spec fn constants_done(&self, old: &VirtualMachine, r: Result<(), InitError>) -> bool {
        &&& self.call_stack == old.call_stack
        &&& self.value_stack == old.value_stack
        &&& self.globals == old.globals
        &&& self.log_level == old.log_level
        &&& self.pending == old.pending
        &&& self.output == old.output
        &&& match r {
            Ok(()) => self.constants_finalized(old) && spec_interns(
                old.heap,
                self.heap,
                spec_meta_texts(old.func_meta@, old.func_meta@.len() as int),
            ),
            Err(e) => e is OutOfMemory && spec_intern_fails(old.heap, self.heap, old.func_meta@),
        }
    }

    /// Interns the text of every string constant and lets the constant
    /// refer to the string object. Stops at the first text that does not fit
    /// the heap; see [`VirtualMachine::constants_done`].
    pub fn finalize_constants(&mut self) -> (r: Result<(), InitError>)
        requires
            old(self).wf(),
        ensures
            final(self).wf(),
            final(self).constants_done(old(self), r),
    {
        let ghost metas = self.func_meta@;
        let ghost start = self.heap;
        let mut m: usize = 0;
        while m < self.func_meta.len()
            invariant
                m <= self.func_meta@.len(),
                self.wf(),
                metas == old(self).func_meta@,
                start == old(self).heap,
                self.call_stack == old(self).call_stack,
                self.value_stack == old(self).value_stack,
                self.globals == old(self).globals,
                self.log_level == old(self).log_level,
                self.pending == old(self).pending,
                self.output == old(self).output,
                self.func_meta@.len() == metas.len(),
                spec_interns(start, self.heap, spec_meta_texts(metas, m as int)),
                forall|x: int| m <= x < metas.len() ==> self.func_meta@[x] == metas[x],
                forall|x: int|
                    0 <= x < m ==> spec_entry_finalized(
                        self.heap,
                        #[trigger] self.func_meta@[x],
                        metas[x],
                        metas[x].1.constants@.len() as int,
                    ),
            decreases self.func_meta@.len() - m,
        {
            let count = self.func_meta[m].1.constants.len();
            let ghost consts = metas[m as int].1.constants@;
            let mut k: usize = 0;
            proof {
                assert(spec_texts_before(metas, m as int, 0) =~= spec_meta_texts(metas, m as int));
            }
            while k < count
                invariant
                    k <= count,
                    m < metas.len(),
                    count == consts.len(),
                    consts == metas[m as int].1.constants@,
                    self.wf(),
                    metas == old(self).func_meta@,
                    start == old(self).heap,
                    self.call_stack == old(self).call_stack,
                    self.value_stack == old(self).value_stack,
                    self.globals == old(self).globals,
                    self.log_level == old(self).log_level,
                    self.pending == old(self).pending,
                    self.output == old(self).output,
                    self.func_meta@.len() == metas.len(),
                    spec_interns(start, self.heap, spec_texts_before(metas, m as int, k as int)),
                    forall|x: int| m < x < metas.len() ==> self.func_meta@[x] == metas[x],
                    spec_entry_finalized(
                        self.heap,
                        self.func_meta@[m as int],
                        metas[m as int],
                        k as int,
                    ),
                    forall|x: int|
                        0 <= x < m ==> spec_entry_finalized(
                            self.heap,
                            #[trigger] self.func_meta@[x],
                            metas[x],
                            metas[x].1.constants@.len() as int,
                        ),
                decreases count - k,
            {
                let ghost prev = *self;
                let text: Option<String> = match &self.func_meta[m].1.constants[k] {
                    LuaValue::TempString(s) => Some(s.clone()),
                    _ => None,
                };
                match text {
                    Some(s) => {
                        proof {
                            assert(consts[k as int] == LuaValue::TempString(s));
                        }
                        let h = match self.heap.alloc_string(s) {
                            Some(h) => h,
                            None => {
                                proof {
                                    assert(spec_intern_fails(start, self.heap, metas));
                                }
                                return Err(InitError::OutOfMemory);
                            },
                        };
                        proof {
                            let objs = self.heap.all_objects@;
                            let prev_objs = prev.heap.all_objects@;
                            assert forall|x: usize|
                                (#[trigger] spec_open_at(objs, x)) is Some implies spec_open_at(
                                prev_objs,
                                x,
                            ) == spec_open_at(objs, x) by {
                                if (x as int) < prev_objs.len() {
                                    assert(objs.subrange(0, prev_objs.len() as int)[x as int]
                                        == objs[x as int]);
                                }
                            }
                            self.lemma_heap_change(&prev);
                        }
                        let ghost grown = *self;
                        self.func_meta[m].1.constants[k] = LuaValue::String(h);
                        proof {
                            self.lemma_same_frames(&grown);
                            Self::lemma_entries_later(
                                prev.heap,
                                self.heap,
                                s@,
                                h,
                                prev.func_meta@,
                                metas,
                                m as int,
                                k as int,
                            );
                            let text = s@;
                            let sofar = spec_texts_before(metas, m as int, k as int);
                            let next = spec_texts_before(metas, m as int, k + 1);
                            assert(next =~= sofar.push(text));
                            assert(next.drop_last() =~= sofar);
                            assert(self.heap.interned_into(&prev.heap, next.last(), h));
                            prev.heap.lemma_interned(text);
                            self.heap.lemma_interned(text);
                            if prev.heap.interned(text) is None {
                                assert(self.heap.string_pool@.last().0@ == text);
                            }
                            assert(self.heap.interned(text) == Some(h));
                            assert forall|x: int| 0 <= x < m implies spec_entry_finalized(
                                self.heap,
                                #[trigger] self.func_meta@[x],
                                metas[x],
                                metas[x].1.constants@.len() as int,
                            ) by {
                                assert(self.func_meta@[x] == prev.func_meta@[x]);
                            }
                            assert(spec_entry_finalized(
                                self.heap,
                                self.func_meta@[m as int],
                                metas[m as int],
                                k + 1,
                            )) by {
                                let a = self.func_meta@[m as int];
                                let p = prev.func_meta@[m as int];
                                assert forall|j: int|
                                    0 <= j < consts.len() && j < k + 1 implies spec_finalized(
                                    self.heap,
                                    #[trigger] consts[j],
                                    a.1.constants@[j],
                                ) by {
                                    if j < k {
                                        assert(a.1.constants@[j] == p.1.constants@[j]);
                                    }
                                }
                            }
                        }
                    },
                    None => {
                        proof {
                            assert(spec_texts_before(metas, m as int, k + 1) =~= spec_texts_before(
                                metas,
                                m as int,
                                k as int,
                            ));
                        }
                    },
                }
                k += 1;
            }
            proof {
                assert(spec_texts_before(metas, m as int, count as int) =~= spec_meta_texts(
                    metas,
                    m + 1,
                ));
            }
            m += 1;
        }
        Ok(())
    }

    /// Entries whose constants are ready for the run stay so when another
    /// text is interned.
    pub proof fn lemma_entries_later(
        mid: Heap,
        after: Heap,
        text: Seq<char>,
        h: usize,
        entries: Seq<(String, FuncMetadata)>,
        metas: Seq<(String, FuncMetadata)>,
        m: int,
        k: int,
    )
        requires
            mid.pool_wf(),
            after.pool_wf(),
            after.interned_into(&mid, text, h),
            0 <= m < metas.len(),
            entries.len() == metas.len(),
            spec_entry_finalized(mid, entries[m], metas[m], k),
            forall|x: int|
                0 <= x < m ==> spec_entry_finalized(
                    mid,
                    #[trigger] entries[x],
                    metas[x],
                    metas[x].1.constants@.len() as int,
                ),
        ensures
            spec_entry_finalized(after, entries[m], metas[m], k),
            forall|x: int|
                0 <= x < m ==> spec_entry_finalized(
                    after,
                    #[trigger] entries[x],
                    metas[x],
                    metas[x].1.constants@.len() as int,
                ),
    {
        assert forall|v: LuaValue, w: LuaValue| spec_finalized(mid, v, w) implies spec_finalized(
            after,
            v,
            w,
        ) by {
            lemma_finalized_later(mid, after, text, h, v, w);
        }
        assert forall|x: int| 0 <= x < m implies spec_entry_finalized(
            after,
            #[trigger] entries[x],
            metas[x],
            metas[x].1.constants@.len() as int,
        ) by {
            assert(spec_entry_finalized(mid, entries[x], metas[x], metas[x].1.constants@.len() as int));
        }
    }

    /// Whether this machine is machine `old` with the frame of `_start` on
    /// its call stack: a frame of `size` registers at the top of the stack,
    /// at its first instruction, with no captured variables and nobody to
    /// return to; the value stack reaches to the end of the frame, with `Nil`
    /// in its new places.
    pub open spec fn entered(&self, old: &VirtualMachine, size: usize) -> bool {
        &&& self.call_stack@.len() == old.call_stack@.len() + 1
        &&& self.call_stack@.drop_last() == old.call_stack@
        &&& self.top().func_name@ == "_start"@
        &&& self.top().pc == 0
        &&& self.top().base_offset == old.spec_stack_top()
        &&& self.top().reg_count == size
        &&& self.top().ret_dest is None
        &&& self.top().upvalues@.len() == 0
        &&& self.top().out_upvalues@.len() == 0
        &&& self.value_stack.values@ == Self::spec_reserved(
            old.value_stack.values@,
            old.spec_stack_top() + size,
        )
        &&& self.globals == old.globals
        &&& self.func_meta == old.func_meta
        &&& self.heap == old.heap
        &&& self.log_level == old.log_level
        &&& self.pending == old.pending
        &&& self.output == old.output
    }

    /// Whether this machine and `r` are what entering `_start` on machine
    /// `old` gives: `MissingEntry` where the machine knows no function of
    /// that name; `StackOverflow` where the call stack is full or the frame
    /// would outgrow the machine word; else the frame is on the call stack.
    /// After an error the machine is as before.
    pub open spec fn entry_done(&self, old: &VirtualMachine, r: Result<(), InitError>) -> bool {
        match old.spec_meta("_start"@) {
            None => r == Err::<(), InitError>(InitError::MissingEntry) && *self == *old,
            Some(meta) => if old.call_stack@.len() >= MAX_CALL_STACK || old.spec_stack_top()
                + meta.max_stack_size > usize::MAX {
                r == Err::<(), InitError>(InitError::StackOverflow) && *self == *old
            } else {
                r is Ok && self.entered(old, meta.max_stack_size)
            },
        }
    }

    /// Puts the frame of `_start` on the call stack; see
    /// [`VirtualMachine::entry_done`].
    pub fn prepare_entry_frame(&mut self) -> (r: Result<(), InitError>)
        requires
            old(self).wf(),
        ensures
            final(self).wf(),
            final(self).entry_done(old(self), r),
    {
        let entry = String::from_str("_start");
        let m = match self.meta_index(&entry) {
            Some(m) => m,
            None => {
                return Err(InitError::MissingEntry);
            },
        };
        let size = self.func_meta[m].1.max_stack_size;
        self.enter(size)
    }

    /// Puts a frame of `size` registers for `_start` on the call stack.
    fn enter(&mut self, size: usize) -> (r: Result<(), InitError>)
        requires
            old(self).wf(),
        ensures
            final(self).wf(),
            if old(self).call_stack@.len() >= MAX_CALL_STACK || old(self).spec_stack_top() + size
                > usize::MAX {
                r == Err::<(), InitError>(InitError::StackOverflow) && *final(self) == *old(self)
            } else {
                r is Ok && final(self).entered(old(self), size)
            },
    {
        if self.call_stack.len() >= MAX_CALL_STACK {
            return Err(InitError::StackOverflow);
        }
        let frame = match self.make_stack_frame("_start", size, None, Vec::new()) {
            Ok(f) => f,
            Err(_) => {
                return Err(InitError::StackOverflow);
            },
        };
        let ghost reserved = self.value_stack.values@;
        self.push_frame(frame);
        proof {
            assert(self.call_stack@.drop_last() =~= old(self).call_stack@);
            assert(reserved =~= Self::spec_reserved(
                old(self).value_stack.values@,
                old(self).spec_stack_top() + size,
            ));
        }
        Ok(())
    }

    /// Why the function cannot be installed, if it cannot: the scanner has
    /// not scanned it, or its metadata cannot be built.
    pub open spec fn spec_install_failure(func: IRFunction, scanner: Scanner) -> Option<InitError> {
        match scanner.spec_find_function(func.name@) {
            None => Some(InitError::NotScanned(func.name)),
            Some(sc) => spec_build_failure(func, scanner.functions@[sc]),
        }
    }

    /// The last of the first `n` functions of the module that has the name.
    pub open spec fn spec_last_named(module: IRModule, n: int, name: Seq<char>) -> Option<int>
        decreases n,
    {
        if n <= 0 {
            None
        } else if module.functions@[n - 1].name@ == name {
            Some(n - 1)
        } else {
            Self::spec_last_named(module, n - 1, name)
        }
    }

    /// Whether the scanner has scanned each of the first `n` functions of
    /// the module and the emitter can lower it with the registers that the
    /// scanner gave.
    pub open spec fn spec_lowers(module: IRModule, scanner: Scanner, n: int) -> bool {
        forall|i: int|
            0 <= i < n ==> Self::spec_install_failure(
                #[trigger] module.functions@[i],
                scanner,
            ) is None
    }

    /// Whether this machine is machine `old` with the first `n` functions
    /// of the module installed: under the name of each it knows the
    /// metadata built from the last function of that name, with the registers
    /// that the scanner gave; under any other name, what `old` knew.
    pub open spec fn installed(
        &self,
        old: &VirtualMachine,
        module: IRModule,
        scanner: Scanner,
        n: int,
    ) -> bool {
        &&& self.call_stack == old.call_stack
        &&& self.value_stack == old.value_stack
        &&& self.globals == old.globals
        &&& self.heap == old.heap
        &&& self.log_level == old.log_level
        &&& self.pending == old.pending
        &&& self.output == old.output
        &&& forall|name: Seq<char>|
            match Self::spec_last_named(module, n, name) {
                Some(i) => match (#[trigger] self.spec_meta(name), scanner.spec_find_function(name)) {
                    (Some(meta), Some(sc)) => spec_built(
                        meta,
                        module.functions@[i],
                        scanner.functions@[sc],
                    ),
                    _ => false,
                },
                None => self.spec_meta(name) == old.spec_meta(name),
            }
    }

    /// A machine with the first `i` functions installed, and function `i`
    /// filed under its name, has the first `i + 1` functions installed.
    pub proof fn lemma_installed_next(
        &self,
        before: &VirtualMachine,
        old: &VirtualMachine,
        module: IRModule,
        scanner: Scanner,
        i: int,
    )
        requires
            0 <= i < module.functions@.len(),
            before.installed(old, module, scanner, i),
            self.call_stack == before.call_stack,
            self.value_stack == before.value_stack,
            self.globals == before.globals,
            self.heap == before.heap,
            self.log_level == before.log_level,
            self.pending == before.pending,
            self.output == before.output,
            scanner.spec_find_function(module.functions@[i].name@) is Some,
            self.spec_meta(module.functions@[i].name@) is Some,
            spec_built(
                self.spec_meta(module.functions@[i].name@)->0,
                module.functions@[i],
                scanner.functions@[scanner.spec_find_function(module.functions@[i].name@)->0],
            ),
            forall|other: Seq<char>|
                other != module.functions@[i].name@ ==> #[trigger] self.spec_meta(other)
                    == before.spec_meta(other),
        ensures
            self.installed(old, module, scanner, i + 1),
    {
        assert forall|name: Seq<char>|
            match Self::spec_last_named(module, i + 1, name) {
                Some(k) => match (#[trigger] self.spec_meta(name), scanner.spec_find_function(name)) {
                    (Some(meta), Some(sc)) => spec_built(
                        meta,
                        module.functions@[k],
                        scanner.functions@[sc],
                    ),
                    _ => false,
                },
                None => self.spec_meta(name) == old.spec_meta(name),
            } by {
            if name != module.functions@[i].name@ {
                assert(self.spec_meta(name) == before.spec_meta(name));
                assert(Self::spec_last_named(module, i + 1, name) == Self::spec_last_named(
                    module,
                    i,
                    name,
                ));
            }
        }
    }

    /// Whether this machine and `r` are what installing the functions of
    /// the module on machine `old` gives: all of them installed; or the error
    /// of the first one that cannot be, with the ones before it installed.
    pub open spec fn install_done(
        &self,
        old: &VirtualMachine,
        module: IRModule,
        scanner: Scanner,
        r: Result<(), InitError>,
    ) -> bool {
        match r {
            Ok(()) => {
                &&& Self::spec_lowers(module, scanner, module.functions@.len() as int)
                &&& self.installed(old, module, scanner, module.functions@.len() as int)
            },
            Err(e) => exists|i: int|
                {
                    &&& 0 <= i < module.functions@.len()
                    &&& Self::spec_install_failure(#[trigger] module.functions@[i], scanner)
                        == Some(e)
                    &&& Self::spec_lowers(module, scanner, i)
                    &&& self.installed(old, module, scanner, i)
                },
        }
    }

    /// Installs the functions of the module, in their order. Stops at the
    /// first one that cannot be installed, with the ones before it
    /// installed; see [`VirtualMachine::install_done`].
    pub fn install_functions(&mut self, module: &IRModule, scanner: &Scanner) -> (r: Result<
        (),
        InitError,
    >)
        requires
            old(self).wf(),
            scanner.wf(),
        ensures
            final(self).wf(),
            final(self).install_done(old(self), *module, *scanner, r),
    {
        let mut i: usize = 0;
        while i < module.functions.len()
            invariant
                i <= module.functions@.len(),
                self.wf(),
                scanner.wf(),
                self.call_stack == old(self).call_stack,
                self.value_stack == old(self).value_stack,
                self.globals == old(self).globals,
                self.heap == old(self).heap,
                self.log_level == old(self).log_level,
                self.pending == old(self).pending,
                self.output == old(self).output,
                Self::spec_lowers(*module, *scanner, i as int),
                self.installed(old(self), *module, *scanner, i as int),
            decreases module.functions@.len() - i,
        {
            let ghost before = *self;
            match self.install_one(&module.functions[i], scanner) {
                Ok(()) => {},
                Err(e) => {
                    return Err(e);
                },
            }
            proof {
                self.lemma_installed_next(&before, old(self), *module, *scanner, i as int);
            }
            i += 1;
        }
        Ok(())
    }

    /// Installs one function: files the metadata built from it under its
    /// name. Fails, with the machine as it was, where the function cannot be
    /// installed.
    pub fn install_one(&mut self, func: &IRFunction, scanner: &Scanner) -> (r: Result<(), InitError>)
        requires
            old(self).wf(),
            scanner.wf(),
        ensures
            final(self).wf(),
            final(self).call_stack == old(self).call_stack,
            final(self).value_stack == old(self).value_stack,
            final(self).globals == old(self).globals,
            final(self).heap == old(self).heap,
            final(self).log_level == old(self).log_level,
            final(self).pending == old(self).pending,
            final(self).output == old(self).output,
            match r {
                Ok(()) => {
                    &&& Self::spec_install_failure(*func, *scanner) is None
                    &&& final(self).spec_meta(func.name@) is Some
                    &&& spec_built(
                        final(self).spec_meta(func.name@)->0,
                        *func,
                        scanner.functions@[scanner.spec_find_function(func.name@)->0],
                    )
                    &&& forall|other: Seq<char>|
                        other != func.name@ ==> #[trigger] final(self).spec_meta(other) == old(self).spec_meta(other)
                },
                Err(e) => Self::spec_install_failure(*func, *scanner) == Some(e) && *final(self)
                    == *old(self),
            },
    {
        let sc = match scanner.find_function(&func.name) {
            Some(sc) => sc,
            None => {
                return Err(InitError::NotScanned(func.name.clone()));
            },
        };
        let meta = match build_metadata(func, &scanner.functions[sc]) {
            Ok(meta) => meta,
            Err(e) => {
                return Err(e);
            },
        };
        self.insert_meta(func.name.clone(), meta);
        Ok(())
    }

    /// This machine at the given log level.
    pub open spec fn at_level(self, log_level: LogLevel) -> VirtualMachine {
        VirtualMachine { log_level, ..self }
    }

    /// Whether this machine and `r` are what initialising machine `old`
    /// for the module gives. The steps are taken in this order, and the first
    /// error ends them, with the machine as that step left it: the log level
    /// is set; the functions are installed; the built-in functions are
    /// installed; the constants are made ready for the run; `_start` is
    /// entered.
    pub open spec fn initialised(
        &self,
        old: &VirtualMachine,
        module: IRModule,
        log_level: LogLevel,
        scanner: Scanner,
        r: Result<(), InitError>,
    ) -> bool {
        exists|a: VirtualMachine, ra: Result<(), InitError>| #[trigger]
            a.install_done(&old.at_level(log_level), module, scanner, ra) && match ra {
                Err(e) => r == Err::<(), InitError>(e) && *self == a,
                Ok(()) => self.started(&a, r),
            }
    }

    /// Whether this machine and `r` are what the steps after the
    /// installing of the functions give on machine `old`.
    pub open spec fn started(&self, old: &VirtualMachine, r: Result<(), InitError>) -> bool {
        exists|b: VirtualMachine, c: VirtualMachine, rc: Result<(), InitError>|
            #![trigger b.library_loaded(old), c.constants_done(&b, rc)]
            b.library_loaded(old) && c.constants_done(&b, rc) && match rc {
                Err(e) => r == Err::<(), InitError>(e) && *self == c,
                Ok(()) => self.entry_done(&c, r),
            }
    }

    /// Initialises the machine for a module: lowers every function with the
    /// registers that the scanner gave, installs the built-in functions, makes
    /// the constants ready for the run and enters `_start`; see
    /// [`VirtualMachine::initialised`].
    pub fn init_module(&mut self, module: &IRModule, log_level: LogLevel, scanner: &Scanner) -> (r:
        Result<(), InitError>)
        requires
            old(self).wf(),
            scanner.wf(),
        ensures
            final(self).wf(),
            final(self).initialised(old(self), *module, log_level, *scanner, r),
    {
        self.log_level = log_level;
        proof {
            self.lemma_same_frames(old(self));
            assert(*self == old(self).at_level(log_level));
        }
        let ghost first = *self;
        let ra = self.install_functions(module, scanner);
        let ghost a = *self;
        match ra {
            Ok(()) => {},
            Err(e) => {
                proof {
                    assert(a.install_done(&first, *module, *scanner, ra));
                }
                return Err(e);
            },
        }
        self.load_standard_library();
        let ghost b = *self;
        let rc = self.finalize_constants();
        let ghost c = *self;
        match rc {
            Ok(()) => {},
            Err(e) => {
                proof {
                    assert(b.library_loaded(&a) && c.constants_done(&b, rc));
                    assert(self.started(&a, Err(e)));
                    assert(a.install_done(&first, *module, *scanner, ra));
                }
                return Err(e);
            },
        }
        let r = self.prepare_entry_frame();
        proof {
            assert(b.library_loaded(&a) && c.constants_done(&b, rc));
            assert(self.started(&a, r));
            assert(a.install_done(&first, *module, *scanner, ra));
        }
        r
    }

    /// Initialises the machine for the module that the generator has
    /// generated; see [`VirtualMachine::initialised`].
    pub fn init(&mut self, generator: &IRGenerator, log_level: LogLevel, scanner: &Scanner) -> (r:
        Result<(), InitError>)
        requires
            old(self).wf(),
            scanner.wf(),
        ensures
            final(self).wf(),
            final(self).initialised(old(self), generator.module, log_level, *scanner, r),
    {
        self.init_module(generator.get_module(), log_level, scanner)
    }
}

} // verus!
