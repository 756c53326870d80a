//! The collector's roots, and a collection of the machine's heap.
//!
//! The roots are the values of the globals, the values on the value stack,
//! the constants of every function, the captured variables of every frame,
//! the upvalues that are open on a frame's registers, and the operand that a
//! pending concatenation holds. The intern table is no root: a string that
//! nothing else refers to is freed, and its entry goes with it.

use vstd::prelude::*;
use crate::backend::vm::heap::{
    spec_edge, spec_is_path, spec_live, spec_open_at, spec_reachable,
};
use crate::backend::vm::stack::StackFrame;
use crate::backend::vm::{spec_registered, FuncMetadata, Pending, VirtualMachine};
use crate::common::object::{spec_value_ref, LuaValue};

verus! {

/// Whether one of the values refers to the object `h`.
pub open spec fn spec_values_refer(values: Seq<LuaValue>, h: usize) -> bool {
    exists|i: int| 0 <= i < values.len() && #[trigger] spec_value_ref(values[i]) == Some(h)
}

/// Whether the value of one of the globals refers to the object `h`.
pub open spec fn spec_globals_refer(globals: Seq<(String, LuaValue)>, h: usize) -> bool {
    exists|i: int| 0 <= i < globals.len() && spec_value_ref((#[trigger] globals[i]).1) == Some(h)
}

/// Whether a constant of one of the functions refers to the object `h`.
pub open spec fn spec_constants_refer(metas: Seq<(String, FuncMetadata)>, h: usize) -> bool {
    exists|m: int| 0 <= m < metas.len() && spec_values_refer((#[trigger] metas[m]).1.constants@, h)
}

/// Whether the frame holds the handle `h`, as a captured variable or as an
/// upvalue that is open on one of its registers.
pub open spec fn spec_frame_holds(frame: StackFrame, h: usize) -> bool {
    ||| exists|u: int| 0 <= u < frame.upvalues@.len() && #[trigger] frame.upvalues@[u] == h
    ||| exists|e: int| 0 <= e < frame.out_upvalues@.len() && (#[trigger] frame.out_upvalues@[e]).1 == h
}

/// Whether one of the frames holds the handle `h`.
pub open spec fn spec_frames_hold(frames: Seq<StackFrame>, h: usize) -> bool {
    exists|f: int| 0 <= f < frames.len() && spec_frame_holds(#[trigger] frames[f], h)
}

/// Whether what is pending holds a value that refers to the object `h`.
pub open spec fn spec_pending_refers(pending: Pending, h: usize) -> bool {
    match pending {
        Pending::ConcatLeft { right, .. } => spec_value_ref(right) == Some(h),
        _ => false,
    }
}

/// Whether one of the first `n` values refers to the object `h`.
pub open spec fn spec_values_refer_upto(values: Seq<LuaValue>, n: int, h: usize) -> bool {
    exists|i: int| 0 <= i < n && i < values.len() && #[trigger] spec_value_ref(values[i]) == Some(h)
}

/// Whether the value of one of the first `n` globals refers to the object `h`.
pub open spec fn spec_globals_refer_upto(globals: Seq<(String, LuaValue)>, n: int, h: usize) -> bool {
    exists|i: int|
        0 <= i < n && i < globals.len() && spec_value_ref((#[trigger] globals[i]).1) == Some(h)
}

/// Whether a constant of one of the first `n` functions refers to the
/// object `h`.
pub open spec fn spec_constants_refer_upto(metas: Seq<(String, FuncMetadata)>, n: int, h: usize) -> bool {
    exists|m: int|
        0 <= m < n && m < metas.len() && spec_values_refer((#[trigger] metas[m]).1.constants@, h)
}

/// Whether one of the first `n` frames holds the handle `h`.
pub open spec fn spec_frames_hold_upto(frames: Seq<StackFrame>, n: int, h: usize) -> bool {
    exists|f: int| 0 <= f < n && f < frames.len() && spec_frame_holds(#[trigger] frames[f], h)
}

/// A sequence with one more item holds what it held, and the item.
pub proof fn lemma_contains_push(s: Seq<usize>, k: usize, h: usize)
    ensures
        s.push(k).contains(h) <==> s.contains(h) || h == k,
{
    if s.push(k).contains(h) {
        let x = choose|x: int| 0 <= x < s.push(k).len() && s.push(k)[x] == h;
        if x < s.len() {
            assert(s[x] == h);
        }
    }
    if s.contains(h) {
        let x = choose|x: int| 0 <= x < s.len() && s[x] == h;
        assert(s.push(k)[x] == h);
    }
    if h == k {
        assert(s.push(k)[s.len() as int] == h);
    }
}

/// One more value refers to what the values before referred to, and to
/// what it refers to itself.
pub proof fn lemma_values_refer_step(values: Seq<LuaValue>, n: int, h: usize)
    requires
        0 <= n < values.len(),
    ensures
        spec_values_refer_upto(values, n + 1, h) <==> spec_values_refer_upto(values, n, h)
            || spec_value_ref(values[n]) == Some(h),
{
    if spec_values_refer_upto(values, n + 1, h) {
        let i = choose|i: int|
            0 <= i < n + 1 && i < values.len() && #[trigger] spec_value_ref(values[i]) == Some(h);
        if i < n {
            assert(spec_values_refer_upto(values, n, h));
        }
    }
    if spec_values_refer_upto(values, n, h) {
        let i = choose|i: int|
            0 <= i < n && i < values.len() && #[trigger] spec_value_ref(values[i]) == Some(h);
        assert(spec_value_ref(values[i]) == Some(h));
    }
}

/// Appends to `out` the handle of every value that refers to an object.
pub fn push_value_refs(values: &Vec<LuaValue>, out: &mut Vec<usize>)
    ensures
        forall|h: usize|
            #[trigger] final(out)@.contains(h) <==> old(out)@.contains(h) || spec_values_refer(values@, h),
{
    let ghost base = out@;
    let mut i: usize = 0;
    while i < values.len()
        invariant
            i <= values.len(),
            forall|h: usize|
                #[trigger] out@.contains(h) <==> base.contains(h) || spec_values_refer_upto(
                    values@,
                    i as int,
                    h,
                ),
        decreases values.len() - i,
    {
        let ghost before = out@;
        match values[i].heap_ref() {
            Some(k) => {
                out.push(k);
            },
            None => {},
        }
        proof {
            assert forall|h: usize|
                #[trigger] out@.contains(h) <==> base.contains(h) || spec_values_refer_upto(
                    values@,
                    i + 1,
                    h,
                ) by {
                lemma_values_refer_step(values@, i as int, h);
                if spec_value_ref(values@[i as int]) is Some {
                    lemma_contains_push(before, spec_value_ref(values@[i as int])->0, h);
                }
            }
        }
        i += 1;
    }
    proof {
        assert forall|h: usize|
            #[trigger] out@.contains(h) <==> base.contains(h) || spec_values_refer(values@, h) by {
            if spec_values_refer(values@, h) {
                let j = choose|j: int|
                    0 <= j < values@.len() && #[trigger] spec_value_ref(values@[j]) == Some(h);
                assert(spec_values_refer_upto(values@, values@.len() as int, h));
            }
        }
    }
}

/// Appends to `out` the handle that each listed upvalue has.
pub fn push_listed(entries: &Vec<(usize, usize)>, out: &mut Vec<usize>)
    ensures
        forall|h: usize|
            #[trigger] final(out)@.contains(h) <==> old(out)@.contains(h) || exists|e: int|
                0 <= e < entries@.len() && (#[trigger] entries@[e]).1 == h,
{
    let ghost base = out@;
    let mut i: usize = 0;
    while i < entries.len()
        invariant
            i <= entries.len(),
            forall|h: usize|
                #[trigger] out@.contains(h) <==> base.contains(h) || exists|e: int|
                    0 <= e < i && (#[trigger] entries@[e]).1 == h,
        decreases entries.len() - i,
    {
        let ghost before = out@;
        out.push(entries[i].1);
        proof {
            assert forall|h: usize|
                #[trigger] out@.contains(h) <==> base.contains(h) || exists|e: int|
                    0 <= e < i + 1 && (#[trigger] entries@[e]).1 == h by {
                lemma_contains_push(before, entries@[i as int].1, h);
                if exists|e: int| 0 <= e < i + 1 && (#[trigger] entries@[e]).1 == h {
                    let e = choose|e: int| 0 <= e < i + 1 && (#[trigger] entries@[e]).1 == h;
                    if e < i {
                    }
                }
                if h == entries@[i as int].1 {
                    assert(entries@[i as int].1 == h);
                }
            }
        }
        i += 1;
    }
}

/// Appends the handles to `out`.
pub fn push_handles(handles: &Vec<usize>, out: &mut Vec<usize>)
    ensures
        forall|h: usize|
            #[trigger] final(out)@.contains(h) <==> old(out)@.contains(h) || exists|u: int|
                0 <= u < handles@.len() && #[trigger] handles@[u] == h,
{
    let ghost base = out@;
    let mut i: usize = 0;
    while i < handles.len()
        invariant
            i <= handles.len(),
            forall|h: usize|
                #[trigger] out@.contains(h) <==> base.contains(h) || exists|u: int|
                    0 <= u < i && #[trigger] handles@[u] == h,
        decreases handles.len() - i,
    {
        let ghost before = out@;
        out.push(handles[i]);
        proof {
            assert forall|h: usize|
                #[trigger] out@.contains(h) <==> base.contains(h) || exists|u: int|
                    0 <= u < i + 1 && #[trigger] handles@[u] == h by {
                lemma_contains_push(before, handles@[i as int], h);
                if exists|u: int| 0 <= u < i + 1 && #[trigger] handles@[u] == h {
                    let u = choose|u: int| 0 <= u < i + 1 && #[trigger] handles@[u] == h;
                    if u < i {
                    }
                }
                if h == handles@[i as int] {
                    assert(handles@[i as int] == h);
                }
            }
        }
        i += 1;
    }
}

impl VirtualMachine {
    /// Whether the handle `h` is a root of the collector.
    pub open spec fn spec_is_root(&self, h: usize) -> bool {
        ||| spec_globals_refer(self.globals@, h)
        ||| spec_values_refer(self.value_stack.values@, h)
        ||| spec_constants_refer(self.func_meta@, h)
        ||| spec_frames_hold(self.call_stack@, h)
        ||| spec_pending_refers(self.pending, h)
    }

    /// Whether `p` leads from a root of the machine to its last item,
    /// object by object.
    pub open spec fn spec_root_path(&self, p: Seq<usize>) -> bool {
        &&& p.len() > 0
        &&& self.spec_is_root(p[0])
        &&& spec_live(self.heap.all_objects@, p[0])
        &&& forall|i: int|
            0 <= i < p.len() - 1 ==> spec_edge(self.heap.all_objects@, #[trigger] p[i], p[i + 1])
    }

    /// Whether the object `h` can be reached from the machine's roots.
    pub open spec fn spec_reaches(&self, h: usize) -> bool {
        exists|p: Seq<usize>| self.spec_root_path(p) && #[trigger] p.last() == h
    }

    fn push_global_refs(&self, out: &mut Vec<usize>)
        ensures
            forall|h: usize|
                #[trigger] final(out)@.contains(h) <==> old(out)@.contains(h) || spec_globals_refer(
                    self.globals@,
                    h,
                ),
    {
        let ghost base = out@;
        let mut i: usize = 0;
        while i < self.globals.len()
            invariant
                i <= self.globals.len(),
                forall|h: usize|
                    #[trigger] out@.contains(h) <==> base.contains(h) || spec_globals_refer_upto(
                        self.globals@,
                        i as int,
                        h,
                    ),
            decreases self.globals.len() - i,
        {
            let ghost before = out@;
            match self.globals[i].1.heap_ref() {
                Some(k) => {
                    out.push(k);
                },
                None => {},
            }
            proof {
                let globals = self.globals@;
                assert forall|h: usize|
                    #[trigger] out@.contains(h) <==> base.contains(h) || spec_globals_refer_upto(
                        globals,
                        i + 1,
                        h,
                    ) by {
                    if spec_value_ref(globals[i as int].1) is Some {
                        lemma_contains_push(before, spec_value_ref(globals[i as int].1)->0, h);
                    }
                    if spec_globals_refer_upto(globals, i + 1, h) {
                        let j = choose|j: int|
                            0 <= j < i + 1 && j < globals.len() && spec_value_ref(
                                (#[trigger] globals[j]).1,
                            ) == Some(h);
                        if j < i {
                            assert(spec_globals_refer_upto(globals, i as int, h));
                        }
                    }
                    if spec_globals_refer_upto(globals, i as int, h) {
                        let j = choose|j: int|
                            0 <= j < i && j < globals.len() && spec_value_ref(
                                (#[trigger] globals[j]).1,
                            ) == Some(h);
                        assert(spec_value_ref(globals[j].1) == Some(h));
                    }
                    if spec_value_ref(globals[i as int].1) == Some(h) {
                        assert(spec_globals_refer_upto(globals, i + 1, h));
                    }
                }
            }
            i += 1;
        }
        proof {
            let globals = self.globals@;
            assert forall|h: usize|
                #[trigger] out@.contains(h) <==> base.contains(h) || spec_globals_refer(globals, h) by {
                if spec_globals_refer(globals, h) {
                    let j = choose|j: int|
                        0 <= j < globals.len() && spec_value_ref((#[trigger] globals[j]).1) == Some(
                            h,
                        );
                    assert(spec_globals_refer_upto(globals, globals.len() as int, h));
                }
            }
        }
    }

    fn push_constant_refs(&self, out: &mut Vec<usize>)
        ensures
            forall|h: usize|
                #[trigger] final(out)@.contains(h) <==> old(out)@.contains(h) || spec_constants_refer(
                    self.func_meta@,
                    h,
                ),
    {
        let ghost base = out@;
        let mut m: usize = 0;
        while m < self.func_meta.len()
            invariant
                m <= self.func_meta.len(),
                forall|h: usize|
                    #[trigger] out@.contains(h) <==> base.contains(h) || spec_constants_refer_upto(
                        self.func_meta@,
                        m as int,
                        h,
                    ),
            decreases self.func_meta.len() - m,
        {
            push_value_refs(&self.func_meta[m].1.constants, out);
            proof {
                let metas = self.func_meta@;
                assert forall|h: usize|
                    #[trigger] out@.contains(h) <==> base.contains(h) || spec_constants_refer_upto(
                        metas,
                        m + 1,
                        h,
                    ) by {
                    if spec_constants_refer_upto(metas, m + 1, h) {
                        let j = choose|j: int|
                            0 <= j < m + 1 && j < metas.len() && spec_values_refer(
                                (#[trigger] metas[j]).1.constants@,
                                h,
                            );
                        if j < m {
                            assert(spec_constants_refer_upto(metas, m as int, h));
                        }
                    }
                    if spec_constants_refer_upto(metas, m as int, h) {
                        let j = choose|j: int|
                            0 <= j < m && j < metas.len() && spec_values_refer(
                                (#[trigger] metas[j]).1.constants@,
                                h,
                            );
                        assert(spec_values_refer(metas[j].1.constants@, h));
                    }
                    if spec_values_refer(metas[m as int].1.constants@, h) {
                        assert(spec_constants_refer_upto(metas, m + 1, h));
                    }
                }
            }
            m += 1;
        }
        proof {
            let metas = self.func_meta@;
            assert forall|h: usize|
                #[trigger] out@.contains(h) <==> base.contains(h) || spec_constants_refer(metas, h) by {
                if spec_constants_refer(metas, h) {
                    let j = choose|j: int|
                        0 <= j < metas.len() && spec_values_refer(
                            (#[trigger] metas[j]).1.constants@,
                            h,
                        );
                    assert(spec_constants_refer_upto(metas, metas.len() as int, h));
                }
            }
        }
    }

    fn push_frame_refs(&self, out: &mut Vec<usize>)
        ensures
            forall|h: usize|
                #[trigger] final(out)@.contains(h) <==> old(out)@.contains(h) || spec_frames_hold(
                    self.call_stack@,
                    h,
                ),
    {
        let ghost base = out@;
        let mut f: usize = 0;
        while f < self.call_stack.len()
            invariant
                f <= self.call_stack.len(),
                forall|h: usize|
                    #[trigger] out@.contains(h) <==> base.contains(h) || spec_frames_hold_upto(
                        self.call_stack@,
                        f as int,
                        h,
                    ),
            decreases self.call_stack.len() - f,
        {
            push_handles(&self.call_stack[f].upvalues, out);
            push_listed(&self.call_stack[f].out_upvalues, out);
            proof {
                let frames = self.call_stack@;
                assert forall|h: usize|
                    #[trigger] out@.contains(h) <==> base.contains(h) || spec_frames_hold_upto(
                        frames,
                        f + 1,
                        h,
                    ) by {
                    if spec_frames_hold_upto(frames, f + 1, h) {
                        let j = choose|j: int|
                            0 <= j < f + 1 && j < frames.len() && spec_frame_holds(
                                #[trigger] frames[j],
                                h,
                            );
                        if j < f {
                            assert(spec_frames_hold_upto(frames, f as int, h));
                        }
                    }
                    if spec_frames_hold_upto(frames, f as int, h) {
                        let j = choose|j: int|
                            0 <= j < f && j < frames.len() && spec_frame_holds(
                                #[trigger] frames[j],
                                h,
                            );
                        assert(spec_frame_holds(frames[j], h));
                    }
                    if spec_frame_holds(frames[f as int], h) {
                        assert(spec_frames_hold_upto(frames, f + 1, h));
                    }
                }
            }
            f += 1;
        }
        proof {
            let frames = self.call_stack@;
            assert forall|h: usize|
                #[trigger] out@.contains(h) <==> base.contains(h) || spec_frames_hold(frames, h) by {
                if spec_frames_hold(frames, h) {
                    let j = choose|j: int|
                        0 <= j < frames.len() && spec_frame_holds(#[trigger] frames[j], h);
                    assert(spec_frames_hold_upto(frames, frames.len() as int, h));
                }
            }
        }
    }

    /// The handles that the machine's roots hold.
    pub fn collect_roots(&self) -> (r: Vec<usize>)
        ensures
            forall|h: usize| #[trigger] r@.contains(h) <==> self.spec_is_root(h),
    {
        let mut out: Vec<usize> = Vec::new();
        self.push_global_refs(&mut out);
        push_value_refs(&self.value_stack.values, &mut out);
        self.push_constant_refs(&mut out);
        self.push_frame_refs(&mut out);
        let ghost before = out@;
        match &self.pending {
            Pending::ConcatLeft { right, .. } => {
                match right.heap_ref() {
                    Some(k) => {
                        out.push(k);
                        proof {
                            assert forall|h: usize| #[trigger] out@.contains(h) <==> self.spec_is_root(h) by {
                                lemma_contains_push(before, k, h);
                            }
                        }
                    },
                    None => {},
                }
            },
            _ => {},
        }
        out
    }

    /// With roots that are the machine's roots, being reachable from them
    /// is being reached by the machine.
    pub proof fn lemma_reaches(&self, roots: Seq<usize>, h: usize)
        requires
            forall|x: usize| #[trigger] roots.contains(x) <==> self.spec_is_root(x),
        ensures
            spec_reachable(self.heap.all_objects@, roots, h) <==> self.spec_reaches(h),
    {
        let objs = self.heap.all_objects@;
        if spec_reachable(objs, roots, h) {
            let p = choose|p: Seq<usize>| spec_is_path(objs, roots, p) && #[trigger] p.last() == h;
            assert(roots.contains(p[0]));
            assert(self.spec_root_path(p));
        }
        if self.spec_reaches(h) {
            let p = choose|p: Seq<usize>| self.spec_root_path(p) && #[trigger] p.last() == h;
            assert(roots.contains(p[0]));
            assert(spec_is_path(objs, roots, p));
        }
    }

    /// Two machines with the same roots and the same objects reach the
    /// same objects.
    pub proof fn lemma_reaches_same(&self, other: &VirtualMachine, h: usize)
        requires
            self.heap.all_objects@ == other.heap.all_objects@,
            self.globals == other.globals,
            self.value_stack == other.value_stack,
            self.func_meta == other.func_meta,
            self.call_stack == other.call_stack,
            self.pending == other.pending,
        ensures
            self.spec_reaches(h) <==> other.spec_reaches(h),
    {
        if self.spec_reaches(h) {
            let p = choose|p: Seq<usize>| self.spec_root_path(p) && #[trigger] p.last() == h;
            assert(self.spec_is_root(p[0]) == other.spec_is_root(p[0]));
            assert(other.spec_root_path(p));
        }
        if other.spec_reaches(h) {
            let p = choose|p: Seq<usize>| other.spec_root_path(p) && #[trigger] p.last() == h;
            assert(self.spec_is_root(p[0]) == other.spec_is_root(p[0]));
            assert(self.spec_root_path(p));
        }
    }

    /// A live object that a value on the value stack refers to is reached.
    pub proof fn lemma_stack_value_reaches(&self, at: int, h: usize)
        requires
            0 <= at < self.value_stack.values@.len(),
            spec_value_ref(self.value_stack.values@[at]) == Some(h),
            spec_live(self.heap.all_objects@, h),
        ensures
            self.spec_reaches(h),
    {
        assert(spec_values_refer(self.value_stack.values@, h));
        let p = seq![h];
        assert(self.spec_root_path(p));
        assert(p.last() == h);
    }

    /// A collection of a machine that differs from `old` in the heap's
    /// threshold only is a collection of `old`.
    pub proof fn lemma_collected_same(&self, mid: &VirtualMachine, old: &VirtualMachine)
        requires
            self.collected(mid),
            mid.heap.all_objects@ == old.heap.all_objects@,
            mid.heap.total_allocated == old.heap.total_allocated,
            mid.heap.string_pool == old.heap.string_pool,
            mid.heap.max_allocated == old.heap.max_allocated,
            mid.globals == old.globals,
            mid.value_stack == old.value_stack,
            mid.func_meta == old.func_meta,
            mid.call_stack == old.call_stack,
            mid.pending == old.pending,
            mid.log_level == old.log_level,
            mid.output == old.output,
        ensures
            self.collected(old),
    {
        assert forall|h: usize| old.spec_reaches(h) implies self.heap.all_objects@[h as int]
            == old.heap.all_objects@[h as int] by {
            mid.lemma_reaches_same(old, h);
        }
        assert forall|h: usize|
            (h as int) < old.heap.all_objects@.len() && !old.spec_reaches(h) implies self.heap.all_objects@[h as int] is None by {
            mid.lemma_reaches_same(old, h);
        }
        let of_mid = |e: (String, usize)| mid.spec_reaches(e.1);
        let of_old = |e: (String, usize)| old.spec_reaches(e.1);
        assert forall|e: (String, usize)| #[trigger] of_mid(e) == of_old(e) by {
            mid.lemma_reaches_same(old, e.1);
        }
        assert(of_mid =~= of_old);
    }

    /// Whether the machine is `old` after a collection: every object that
    /// `old` reaches is as it was, every other slot of the heap is empty, the
    /// intern table lists the strings that `old` reaches, and nothing but the
    /// heap has changed.
    pub open spec fn collected(&self, old: &VirtualMachine) -> bool {
        &&& self.call_stack == old.call_stack
        &&& self.value_stack == old.value_stack
        &&& self.globals == old.globals
        &&& self.func_meta == old.func_meta
        &&& self.log_level == old.log_level
        &&& self.pending == old.pending
        &&& self.output == old.output
        &&& self.heap.all_objects@.len() == old.heap.all_objects@.len()
        &&& forall|h: usize|
            old.spec_reaches(h) ==> self.heap.all_objects@[h as int]
                == old.heap.all_objects@[h as int]
        &&& forall|h: usize|
            (h as int) < old.heap.all_objects@.len() && !old.spec_reaches(h)
                ==> self.heap.all_objects@[h as int] is None
        &&& self.heap.string_pool@ == old.heap.string_pool@.filter(
            |e: (String, usize)| old.spec_reaches(e.1),
        )
        &&& self.heap.total_allocated <= old.heap.total_allocated
        &&& self.heap.max_allocated == old.heap.max_allocated
    }

    /// One collection: frees every object that the machine does not reach,
    /// and leaves every object that it reaches as it was. Returns how many
    /// objects and how many bytes were freed.
    pub fn collect_garbage(&mut self) -> (r: (usize, usize))
        requires
            old(self).wf(),
        ensures
            final(self).wf(),
            final(self).collected(old(self)),
            final(self).heap.threshold == old(self).heap.threshold,
            final(self).heap.total_allocated + r.1 == old(self).heap.total_allocated,
            crate::backend::vm::heap::spec_count_live(final(self).heap.all_objects@) + r.0
                == crate::backend::vm::heap::spec_count_live(old(self).heap.all_objects@),
    {
        let roots = self.collect_roots();
        let ghost root_seq = roots@;
        let r = self.heap.collect(roots);
        proof {
            let objs = self.heap.all_objects@;
            let before = old(self).heap.all_objects@;
            assert forall|h: usize| old(self).spec_reaches(h) implies objs[h as int]
                == before[h as int] by {
                old(self).lemma_reaches(root_seq, h);
            }
            assert forall|h: usize|
                (h as int) < before.len() && !old(self).spec_reaches(h) implies objs[h as int] is None by {
                old(self).lemma_reaches(root_seq, h);
            }
            assert forall|h: usize| (#[trigger] spec_open_at(objs, h)) is Some implies spec_registered(
                self.call_stack@,
                h,
                spec_open_at(objs, h)->0,
            ) by {
                old(self).lemma_reaches(root_seq, h);
                assert(objs[h as int] == before[h as int]);
                assert(spec_open_at(before, h) is Some);
            }
            let of_roots = |e: (String, usize)|
                crate::backend::vm::heap::spec_reachable(before, root_seq, e.1);
            let of_machine = |e: (String, usize)| old(self).spec_reaches(e.1);
            assert forall|e: (String, usize)| #[trigger] of_roots(e) == of_machine(e) by {
                old(self).lemma_reaches(root_seq, e.1);
            }
            assert(of_roots =~= of_machine);
        }
        r
    }

    /// The mark phase of a collection; see
    /// [`crate::backend::vm::heap::Heap::mark_from`].
    pub fn mark_objects(&mut self)
        requires
            old(self).heap.unmarked(),
        ensures
            forall|h: usize|
                crate::backend::vm::heap::spec_marked(final(self).heap.all_objects@, h) <==> old(self).spec_reaches(h),
            crate::backend::vm::heap::spec_same_but_marks(
                old(self).heap.all_objects@,
                final(self).heap.all_objects@,
            ),
            old(self).heap.wf() ==> final(self).heap.wf(),
            final(self).call_stack == old(self).call_stack,
            final(self).value_stack == old(self).value_stack,
            final(self).globals == old(self).globals,
            final(self).func_meta == old(self).func_meta,
            final(self).log_level == old(self).log_level,
            final(self).pending == old(self).pending,
            final(self).output == old(self).output,
    {
        let roots = self.collect_roots();
        let ghost root_seq = roots@;
        self.heap.mark_from(roots);
        proof {
            assert forall|h: usize|
                crate::backend::vm::heap::spec_marked(self.heap.all_objects@, h) <==> old(self).spec_reaches(h) by {
                old(self).lemma_reaches(root_seq, h);
            }
        }
    }

    /// The sweep phase of a collection; see
    /// [`crate::backend::vm::heap::Heap::sweep`].
    pub fn sweep_objects(&mut self) -> (r: (usize, usize))
        requires
            old(self).heap.wf(),
        ensures
            final(self).heap.wf(),
            final(self).heap.unmarked(),
            final(self).heap.all_objects@ == old(self).heap.all_objects@.map_values(
                |o: Option<
                    crate::common::object::GCObject<crate::common::object::LuaObject>,
                >| crate::backend::vm::heap::spec_swept(o),
            ),
            final(self).heap.total_allocated + r.1 == old(self).heap.total_allocated,
            final(self).call_stack == old(self).call_stack,
            final(self).value_stack == old(self).value_stack,
            final(self).globals == old(self).globals,
            final(self).func_meta == old(self).func_meta,
            final(self).log_level == old(self).log_level,
            final(self).pending == old(self).pending,
            final(self).output == old(self).output,
    {
        self.heap.sweep()
    }
}

} // verus!
