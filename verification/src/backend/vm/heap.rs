//! The heap: sized allocation, string interning, and the mark and sweep
//! phases of the collector.
//!
//! Objects live in numbered slots; a handle is a slot's index. A slot that
//! has been swept stays empty, so a handle never comes to name another object.
//! Sizes are counted from what an object holds when it is allocated: its
//! header, the bytes of a string, the entries of a table, the instructions
//! and constants of a function.

use vstd::prelude::*;
use vstd::utf8::encode_utf8;
use crate::common::object::{
    spec_object_kind, spec_object_refers, spec_same_value, GCObject, LFunction, LuaObject,
    LuaTable, LuaUpValue, LuaUpValueState, LuaValue, ObjectKind,
};

verus! {

/// More than this many bytes are never allocated.
pub const HARD_MEMORY_LIMIT: usize = 536870912;

/// The threshold of a new heap, in bytes.
pub const VM_THRESHOLD: usize = 1048576;

/// Bytes counted for a string object besides its text.
pub const STRING_HEADER_SIZE: usize = 48;

/// Bytes counted for a table object besides its entries.
pub const TABLE_HEADER_SIZE: usize = 80;

/// Bytes counted for a function object besides its code and constants.
pub const FUNCTION_HEADER_SIZE: usize = 152;

/// Bytes counted for an upvalue object.
pub const UPVALUE_HEADER_SIZE: usize = 64;

/// Bytes counted for one value.
pub const VALUE_SIZE: usize = 32;

/// Bytes counted for one table entry, a key and a value.
pub const TABLE_ENTRY_SIZE: usize = 64;

/// Bytes counted for one instruction.
pub const OPCODE_SIZE: usize = 8;

/// The slots of a heap, as contracts see them.
pub type Slots = Seq<Option<GCObject<LuaObject>>>;

pub struct Heap {
    pub all_objects: Vec<Option<GCObject<LuaObject>>>,
    /// The intern table: the text of each live string object, with its handle.
    pub string_pool: Vec<(String, usize)>,
    pub total_allocated: usize,
    pub threshold: usize,
    /// The largest value that `total_allocated` has had.
    pub max_allocated: usize,
}

/// Whether the handle names an object.
pub open spec fn spec_live(objs: Slots, h: usize) -> bool {
    (h as int) < objs.len() && objs[h as int] is Some
}

/// Whether the handle names an object whose mark is set.
pub open spec fn spec_marked(objs: Slots, h: usize) -> bool {
    spec_live(objs, h) && objs[h as int]->0.mark
}

/// Whether object `a` holds the handle of object `b`.
pub open spec fn spec_edge(objs: Slots, a: usize, b: usize) -> bool {
    spec_live(objs, a) && spec_live(objs, b) && spec_object_refers(objs[a as int]->0.data, b)
}

/// Whether the handle names a string object with the given text.
pub open spec fn spec_is_string(objs: Slots, h: usize, text: Seq<char>) -> bool {
    spec_live(objs, h) && match objs[h as int]->0.data {
        LuaObject::String(s) => s@ == text,
        _ => false,
    }
}

/// Whether `p` leads from a root to its last item, object by object.
pub open spec fn spec_is_path(objs: Slots, roots: Seq<usize>, p: Seq<usize>) -> bool {
    &&& p.len() > 0
    &&& roots.contains(p[0])
    &&& spec_live(objs, p[0])
    &&& forall|i: int| 0 <= i < p.len() - 1 ==> spec_edge(objs, #[trigger] p[i], p[i + 1])
}

/// Whether the object `h` can be reached from the roots.
pub open spec fn spec_reachable(objs: Slots, roots: Seq<usize>, h: usize) -> bool {
    exists|p: Seq<usize>| spec_is_path(objs, roots, p) && #[trigger] p.last() == h
}

/// Whether `b` is `a` with some marks changed.
pub open spec fn spec_same_but_marks(a: Slots, b: Slots) -> bool {
    &&& a.len() == b.len()
    &&& forall|i: int|
        0 <= i < a.len() ==> match (#[trigger] a[i], b[i]) {
            (Some(x), Some(y)) => x.kind == y.kind && x.size == y.size && x.data == y.data,
            (None, None) => true,
            _ => false,
        }
}

/// The bytes counted for a slot.
pub open spec fn spec_slot_size(o: Option<GCObject<LuaObject>>) -> nat {
    match o {
        Some(g) => g.size as nat,
        None => 0,
    }
}

/// The sum of the sizes of the objects in the slots.
pub open spec fn spec_sum_sizes(objs: Slots) -> nat
    decreases objs.len(),
{
    if objs.len() == 0 {
        0
    } else {
        spec_sum_sizes(objs.drop_last()) + spec_slot_size(objs.last())
    }
}

/// The number of objects whose mark is not set.
pub open spec fn spec_count_unmarked(objs: Slots) -> nat
    decreases objs.len(),
{
    if objs.len() == 0 {
        0
    } else {
        spec_count_unmarked(objs.drop_last()) + (match objs.last() {
            Some(g) => if g.mark { 0nat } else { 1nat },
            None => 0nat,
        })
    }
}

/// The number of slots that hold an object.
pub open spec fn spec_count_live(objs: Slots) -> nat
    decreases objs.len(),
{
    if objs.len() == 0 {
        0
    } else {
        spec_count_live(objs.drop_last()) + (if objs.last() is Some {
            1nat
        } else {
            0nat
        })
    }
}

/// The largest total that the heap has had: the new total where it is
/// above the largest so far.
pub open spec fn spec_peak(max: usize, total: usize) -> usize {
    if total > max {
        total
    } else {
        max
    }
}

/// The bytes counted for a string object with the given text.
pub open spec fn spec_string_size(text: Seq<char>) -> nat {
    STRING_HEADER_SIZE as nat + encode_utf8(text).len()
}

/// The bytes counted for a table object with the given number of entries.
pub open spec fn spec_table_size(entries: nat) -> nat {
    TABLE_HEADER_SIZE as nat + entries * TABLE_ENTRY_SIZE as nat
}

/// The bytes counted for a function object.
pub open spec fn spec_function_size(opcodes: nat, constants: nat) -> nat {
    FUNCTION_HEADER_SIZE as nat + opcodes * OPCODE_SIZE as nat + constants * VALUE_SIZE as nat
}

/// Replacing one slot changes the sum by the difference of the two sizes.
pub proof fn lemma_sum_sizes_update(objs: Slots, i: int, o: Option<GCObject<LuaObject>>)
    requires
        0 <= i < objs.len(),
    ensures
        spec_sum_sizes(objs.update(i, o)) + spec_slot_size(objs[i]) == spec_sum_sizes(objs)
            + spec_slot_size(o),
    decreases objs.len(),
{
    let upd = objs.update(i, o);
    if i == objs.len() - 1 {
        assert(upd.drop_last() =~= objs.drop_last());
    } else {
        lemma_sum_sizes_update(objs.drop_last(), i, o);
        assert(upd.drop_last() =~= objs.drop_last().update(i, o));
    }
}

/// A new slot adds its size to the sum.
pub proof fn lemma_sum_sizes_push(objs: Slots, o: Option<GCObject<LuaObject>>)
    ensures
        spec_sum_sizes(objs.push(o)) == spec_sum_sizes(objs) + spec_slot_size(o),
{
    assert(objs.push(o).drop_last() =~= objs);
}

/// The size of one object is at most the sum.
pub proof fn lemma_sum_sizes_bounds(objs: Slots, i: int)
    requires
        0 <= i < objs.len(),
    ensures
        spec_slot_size(objs[i]) <= spec_sum_sizes(objs),
    decreases objs.len(),
{
    if i < objs.len() - 1 {
        lemma_sum_sizes_bounds(objs.drop_last(), i);
    }
}

/// Setting the mark of an unmarked object lowers the count by one.
pub proof fn lemma_count_unmarked_set(objs: Slots, i: int, o: GCObject<LuaObject>)
    requires
        0 <= i < objs.len(),
        objs[i] is Some,
        !objs[i]->0.mark,
        o.mark,
    ensures
        spec_count_unmarked(objs.update(i, Some(o))) + 1 == spec_count_unmarked(objs),
    decreases objs.len(),
{
    let upd = objs.update(i, Some(o));
    if i == objs.len() - 1 {
        assert(upd.drop_last() =~= objs.drop_last());
    } else {
        lemma_count_unmarked_set(objs.drop_last(), i, o);
        assert(upd.drop_last() =~= objs.drop_last().update(i, Some(o)));
    }
}

/// A set of objects that holds every live root and, with an object, all that
/// it refers to, holds every reachable object.
pub proof fn lemma_closed_holds_reachable(
    objs: Slots,
    roots: Seq<usize>,
    marked: Set<usize>,
    p: Seq<usize>,
)
    requires
        spec_is_path(objs, roots, p),
        forall|r: usize| roots.contains(r) && spec_live(objs, r) ==> marked.contains(r),
        forall|a: usize, b: usize| marked.contains(a) && spec_edge(objs, a, b) ==> marked.contains(b),
    ensures
        marked.contains(p.last()),
    decreases p.len(),
{
    if p.len() > 1 {
        let q = p.drop_last();
        assert forall|i: int| 0 <= i < q.len() - 1 implies spec_edge(objs, #[trigger] q[i], q[i + 1]) by {
            assert(spec_edge(objs, p[i], p[i + 1]));
        }
        assert(spec_is_path(objs, roots, q));
        lemma_closed_holds_reachable(objs, roots, marked, q);
        assert(spec_edge(objs, p[p.len() - 2], p[p.len() - 2 + 1]));
        assert(q.last() == p[p.len() - 2]);
    }
}

/// A path can be continued along an edge.
pub proof fn lemma_reachable_step(objs: Slots, roots: Seq<usize>, a: usize, b: usize)
    requires
        spec_reachable(objs, roots, a),
        spec_edge(objs, a, b),
    ensures
        spec_reachable(objs, roots, b),
{
    let p = choose|p: Seq<usize>| spec_is_path(objs, roots, p) && #[trigger] p.last() == a;
    let q = p.push(b);
    assert forall|i: int| 0 <= i < q.len() - 1 implies spec_edge(objs, #[trigger] q[i], q[i + 1]) by {
        if i < p.len() - 1 {
            assert(spec_edge(objs, p[i], p[i + 1]));
        }
    }
    assert(q[0] == p[0]);
    assert(spec_is_path(objs, roots, q));
    assert(q.last() == b);
}

/// A live root is reachable.
pub proof fn lemma_root_reachable(objs: Slots, roots: Seq<usize>, r: usize)
    requires
        roots.contains(r),
        spec_live(objs, r),
    ensures
        spec_reachable(objs, roots, r),
{
    let p = seq![r];
    assert(spec_is_path(objs, roots, p));
    assert(p.last() == r);
}

/// What the sweep leaves of a slot: a marked object with its mark cleared,
/// and nothing of an unmarked one.
pub open spec fn spec_swept(o: Option<GCObject<LuaObject>>) -> Option<GCObject<LuaObject>> {
    match o {
        Some(g) => if g.mark {
            Some(GCObject { mark: false, kind: g.kind, size: g.size, data: g.data })
        } else {
            None
        },
        None => None,
    }
}

/// A sweep frees as many objects as were unmarked.
pub proof fn lemma_count_swept(objs: Slots)
    ensures
        spec_count_live(objs.map_values(|o: Option<GCObject<LuaObject>>| spec_swept(o)))
            + spec_count_unmarked(objs) == spec_count_live(objs),
    decreases objs.len(),
{
    let swept = objs.map_values(|o: Option<GCObject<LuaObject>>| spec_swept(o));
    if objs.len() > 0 {
        lemma_count_swept(objs.drop_last());
        assert(swept.drop_last() =~= objs.drop_last().map_values(
            |o: Option<GCObject<LuaObject>>| spec_swept(o),
        ));
        assert(swept.last() == spec_swept(objs.last()));
    }
}

/// Changing marks alone leaves the number of objects as it is.
pub proof fn lemma_same_but_marks_count(a: Slots, b: Slots)
    requires
        spec_same_but_marks(a, b),
    ensures
        spec_count_live(a) == spec_count_live(b),
    decreases a.len(),
{
    if a.len() > 0 {
        assert(a[a.len() - 1] is Some == b[a.len() - 1] is Some);
        lemma_same_but_marks_count(a.drop_last(), b.drop_last());
    }
}

/// No more objects are unmarked than there are slots.
pub proof fn lemma_count_unmarked_bound(objs: Slots)
    ensures
        spec_count_unmarked(objs) <= objs.len(),
    decreases objs.len(),
{
    if objs.len() > 0 {
        lemma_count_unmarked_bound(objs.drop_last());
    }
}

/// Changing marks alone leaves the sum of the sizes as it is.
pub proof fn lemma_same_but_marks_sum(a: Slots, b: Slots)
    requires
        spec_same_but_marks(a, b),
    ensures
        spec_sum_sizes(a) == spec_sum_sizes(b),
    decreases a.len(),
{
    if a.len() > 0 {
        let a0 = a.drop_last();
        let b0 = b.drop_last();
        assert forall|i: int| 0 <= i < a0.len() implies match (#[trigger] a0[i], b0[i]) {
            (Some(x), Some(y)) => x.kind == y.kind && x.size == y.size && x.data == y.data,
            (None, None) => true,
            _ => false,
        } by {
            assert(a0[i] == a[i]);
        }
        lemma_same_but_marks_sum(a0, b0);
        assert(a.last() == a[a.len() - 1]);
    }
}

impl Heap {
    /// The intern table is sound: every entry names a live string object
    /// with the entry's text, and no text occurs twice.
    pub open spec fn pool_wf(&self) -> bool {
        &&& forall|i: int|
            0 <= i < self.string_pool.len() ==> spec_is_string(
                self.all_objects@,
                (#[trigger] self.string_pool[i]).1,
                self.string_pool[i].0@,
            )
        &&& forall|i: int, j: int|
            0 <= i < j < self.string_pool.len() ==> #[trigger] self.string_pool[i].0@
                != #[trigger] self.string_pool[j].0@
    }

    /// The heap's invariant: the running total is the sum of the sizes of
    /// the objects and within the limit, each header names the kind of its
    /// payload, and the intern table is sound.
    pub open spec fn wf(&self) -> bool {
        &&& self.total_allocated as nat == spec_sum_sizes(self.all_objects@)
        &&& self.total_allocated <= HARD_MEMORY_LIMIT
        &&& forall|h: int|
            0 <= h < self.all_objects.len() && self.all_objects[h] is Some ==> (
            #[trigger] self.all_objects[h])->0.kind == spec_object_kind(self.all_objects[h]->0.data)
        &&& self.pool_wf()
    }

    /// No object is marked: the state between collections.
    pub open spec fn unmarked(&self) -> bool {
        forall|h: usize| !spec_marked(self.all_objects@, h)
    }

    pub fn new() -> (r: Self)
        ensures
            r.wf(),
            r.unmarked(),
            r.all_objects@.len() == 0,
            r.string_pool@.len() == 0,
            r.total_allocated == 0,
            r.threshold == VM_THRESHOLD,
            r.max_allocated == 0,
    {
        Heap {
            all_objects: Vec::new(),
            string_pool: Vec::new(),
            total_allocated: 0,
            threshold: VM_THRESHOLD,
            max_allocated: 0,
        }
    }

    /// The handle under which the text is interned, if it is.
    pub fn find_interned(&self, s: &String) -> (r: Option<usize>)
        ensures
            match r {
                Some(h) => exists|i: int|
                    0 <= i < self.string_pool.len() && #[trigger] self.string_pool[i].0@ == s@
                        && self.string_pool[i].1 == h,
                None => forall|i: int|
                    0 <= i < self.string_pool.len() ==> #[trigger] self.string_pool[i].0@ != s@,
            },
    {
        let mut i: usize = 0;
        while i < self.string_pool.len()
            invariant
                i <= self.string_pool.len(),
                forall|j: int| 0 <= j < i ==> #[trigger] self.string_pool[j].0@ != s@,
            decreases self.string_pool.len() - i,
        {
            if self.string_pool[i].0 == *s {
                return Some(self.string_pool[i].1);
            }
            i += 1;
        }
        None
    }

    /// Puts a new object of the given size into a new slot, unless the
    /// limit would be passed.
    pub fn alloc_raw_object(&mut self, data: LuaObject, size: usize) -> (r: Option<usize>)
        requires
            old(self).wf(),
        ensures
            r is None <==> old(self).total_allocated + size > HARD_MEMORY_LIMIT,
            r is None ==> *final(self) == *old(self),
            r matches Some(h) ==> {
                &&& h == old(self).all_objects.len()
                &&& final(self).all_objects@ == old(self).all_objects@.push(
                    Some(GCObject { mark: false, kind: spec_object_kind(data), size, data }),
                )
                &&& final(self).total_allocated == old(self).total_allocated + size
                &&& final(self).max_allocated == spec_peak(
                    old(self).max_allocated,
                    final(self).total_allocated,
                )
                &&& final(self).string_pool == old(self).string_pool
                &&& final(self).threshold == old(self).threshold
            },
            final(self).wf(),
            old(self).unmarked() ==> final(self).unmarked(),
    {
        if size > HARD_MEMORY_LIMIT - self.total_allocated {
            return None;
        }
        let kind = data.kind();
        let obj = GCObject { mark: false, kind, size, data };
        proof {
            lemma_sum_sizes_push(self.all_objects@, Some(obj));
        }
        let h = self.all_objects.len();
        self.all_objects.push(Some(obj));
        self.total_allocated = self.total_allocated + size;
        if self.total_allocated > self.max_allocated {
            self.max_allocated = self.total_allocated;
        }
        proof {
            assert forall|i: int| 0 <= i < self.string_pool.len() implies spec_is_string(
                self.all_objects@,
                (#[trigger] self.string_pool[i]).1,
                self.string_pool[i].0@,
            ) by {
                let e = old(self).string_pool[i];
                assert(spec_is_string(old(self).all_objects@, e.1, e.0@));
            }
            if old(self).unmarked() {
                assert forall|k: usize| !spec_marked(self.all_objects@, k) by {
                    assert(!spec_marked(old(self).all_objects@, k));
                }
            }
        }
        Some(h)
    }

    /// The handle of the string object with the given text: the one already
    /// interned, or a new one, which is then interned. `None` when a new
    /// object would pass the limit.
    pub fn alloc_string(&mut self, s: String) -> (r: Option<usize>)
        requires
            old(self).wf(),
        ensures
            final(self).wf(),
            old(self).unmarked() ==> final(self).unmarked(),
            final(self).threshold == old(self).threshold,
            final(self).all_objects@.len() >= old(self).all_objects@.len(),
            final(self).all_objects@.subrange(0, old(self).all_objects@.len() as int) == old(self).all_objects@,
            old(self).interned(s@) is Some ==> r == old(self).interned(s@) && *final(self) == *old(self),
            old(self).interned(s@) is None ==> {
                &&& r is None <==> old(self).total_allocated + spec_string_size(s@)
                    > HARD_MEMORY_LIMIT
                &&& r is None ==> *final(self) == *old(self)
                &&& r matches Some(h) ==> {
                    &&& h == old(self).all_objects.len()
                    &&& final(self).all_objects@ == old(self).all_objects@.push(
                        Some(
                            GCObject {
                                mark: false,
                                kind: ObjectKind::String,
                                size: spec_string_size(s@) as usize,
                                data: LuaObject::String(s),
                            },
                        ),
                    )
                    &&& final(self).total_allocated == old(self).total_allocated
                        + spec_string_size(s@)
                    &&& final(self).max_allocated == spec_peak(
                        old(self).max_allocated,
                        final(self).total_allocated,
                    )
                    &&& final(self).string_pool@ == old(self).string_pool@.push((s, h))
                }
            },
            r matches Some(h) ==> spec_is_string(final(self).all_objects@, h, s@) && final(self).interned_into(old(self), s@, h),
    {
        match self.find_interned(&s) {
            Some(h) => {
                proof {
                    self.lemma_interned(s@);
                    assert(self.all_objects@.subrange(0, self.all_objects@.len() as int)
                        =~= self.all_objects@);
                }
                return Some(h);
            },
            None => {},
        }
        proof {
            self.lemma_interned(s@);
        }
        let extra = s.as_str().as_bytes().len();
        if extra > HARD_MEMORY_LIMIT {
            assert(self.all_objects@.subrange(0, self.all_objects@.len() as int)
                =~= self.all_objects@);
            return None;
        }
        let total_size = STRING_HEADER_SIZE + extra;
        let key = s.clone();
        match self.alloc_raw_object(LuaObject::String(s), total_size) {
            Some(h) => {
                self.string_pool.push((key, h));
                proof {
                    assert(self.string_pool@.subrange(0, old(self).string_pool@.len() as int)
                        =~= old(self).string_pool@);
                    assert(self.all_objects@.subrange(0, old(self).all_objects@.len() as int)
                        =~= old(self).all_objects@);
                    assert forall|i: int| 0 <= i < self.string_pool.len() implies spec_is_string(
                        self.all_objects@,
                        (#[trigger] self.string_pool[i]).1,
                        self.string_pool[i].0@,
                    ) by {
                        if i < old(self).string_pool.len() {
                            let e = old(self).string_pool[i];
                            assert(spec_is_string(old(self).all_objects@, e.1, e.0@));
                        }
                    }
                }
                Some(h)
            },
            None => {
                assert(self.all_objects@.subrange(0, self.all_objects@.len() as int)
                    =~= self.all_objects@);
                None
            },
        }
    }

    /// The handle under which a text is interned, if it is.
    pub open spec fn interned(&self, text: Seq<char>) -> Option<usize> {
        if exists|i: int| 0 <= i < self.string_pool.len() && #[trigger] self.string_pool[i].0@ == text {
            let i = choose|i: int|
                0 <= i < self.string_pool.len() && #[trigger] self.string_pool[i].0@ == text;
            Some(self.string_pool[i].1)
        } else {
            None
        }
    }

    /// The handle under which a text is interned names a string object
    /// with that text.
    pub proof fn lemma_interned_is_string(&self, text: Seq<char>)
        requires
            self.pool_wf(),
            self.interned(text) is Some,
        ensures
            spec_string_at(self.all_objects@, self.interned(text)->0) == Some(text),
    {
        let i = choose|i: int|
            0 <= i < self.string_pool.len() && #[trigger] self.string_pool[i].0@ == text;
        assert(spec_is_string(self.all_objects@, self.string_pool[i].1, self.string_pool[i].0@));
    }

    /// In a sound intern table a text has one entry at most, so the entry
    /// that a search finds is the interned one.
    pub proof fn lemma_interned(&self, text: Seq<char>)
        requires
            self.pool_wf(),
        ensures
            forall|i: int|
                0 <= i < self.string_pool.len() && #[trigger] self.string_pool[i].0@ == text
                    ==> self.interned(text) == Some(self.string_pool[i].1),
            (forall|i: int| 0 <= i < self.string_pool.len() ==> #[trigger] self.string_pool[i].0@ != text)
                ==> self.interned(text) is None,
    {
        assert forall|i: int|
            0 <= i < self.string_pool.len() && #[trigger] self.string_pool[i].0@ == text
            implies self.interned(text) == Some(self.string_pool[i].1) by {
            let j = choose|j: int|
                0 <= j < self.string_pool.len() && #[trigger] self.string_pool[j].0@ == text;
            if i < j {
                assert(self.string_pool[i].0@ != self.string_pool[j].0@);
            } else if j < i {
                assert(self.string_pool[j].0@ != self.string_pool[i].0@);
            }
        }
    }

    /// A new table object holding the given table. `None` when it would pass
    /// the limit.
    pub fn alloc_table(&mut self, table_data: LuaTable) -> (r: Option<usize>)
        requires
            old(self).wf(),
        ensures
            final(self).wf(),
            old(self).unmarked() ==> final(self).unmarked(),
            r is None <==> old(self).total_allocated + spec_table_size(table_data.data@.len())
                > HARD_MEMORY_LIMIT,
            r is None ==> *final(self) == *old(self),
            r matches Some(h) ==> {
                &&& h == old(self).all_objects.len()
                &&& final(self).all_objects@ == old(self).all_objects@.push(
                    Some(
                        GCObject {
                            mark: false,
                            kind: ObjectKind::Table,
                            size: spec_table_size(table_data.data@.len()) as usize,
                            data: LuaObject::Table(table_data),
                        },
                    ),
                )
                &&& final(self).total_allocated == old(self).total_allocated + spec_table_size(
                    table_data.data@.len(),
                )
                &&& final(self).max_allocated == spec_peak(
                    old(self).max_allocated,
                    final(self).total_allocated,
                )
                &&& final(self).string_pool == old(self).string_pool
                &&& final(self).threshold == old(self).threshold
            },
    {
        let n = table_data.data.len();
        if n > HARD_MEMORY_LIMIT / TABLE_ENTRY_SIZE {
            assert(n * TABLE_ENTRY_SIZE > HARD_MEMORY_LIMIT) by (nonlinear_arith)
                requires
                    n > HARD_MEMORY_LIMIT / TABLE_ENTRY_SIZE,
            ;
            return None;
        }
        assert(n * TABLE_ENTRY_SIZE <= HARD_MEMORY_LIMIT) by (nonlinear_arith)
            requires
                n <= HARD_MEMORY_LIMIT / TABLE_ENTRY_SIZE,
        ;
        let size = TABLE_HEADER_SIZE + n * TABLE_ENTRY_SIZE;
        self.alloc_raw_object(LuaObject::Table(table_data), size)
    }

    /// A new function object holding the given closure. `None` when it would
    /// pass the limit.
    pub fn alloc_function(&mut self, data: LFunction) -> (r: Option<usize>)
        requires
            old(self).wf(),
        ensures
            final(self).wf(),
            old(self).unmarked() ==> final(self).unmarked(),
            r is None <==> old(self).total_allocated + spec_function_size(
                data.opcodes@.len(),
                data.constants@.len(),
            ) > HARD_MEMORY_LIMIT,
            r is None ==> *final(self) == *old(self),
            r matches Some(h) ==> {
                &&& h == old(self).all_objects.len()
                &&& final(self).all_objects@ == old(self).all_objects@.push(
                    Some(
                        GCObject {
                            mark: false,
                            kind: ObjectKind::Function,
                            size: spec_function_size(
                                data.opcodes@.len(),
                                data.constants@.len(),
                            ) as usize,
                            data: LuaObject::Function(data),
                        },
                    ),
                )
                &&& final(self).total_allocated == old(self).total_allocated + spec_function_size(
                    data.opcodes@.len(),
                    data.constants@.len(),
                )
                &&& final(self).max_allocated == spec_peak(
                    old(self).max_allocated,
                    final(self).total_allocated,
                )
                &&& final(self).string_pool == old(self).string_pool
                &&& final(self).threshold == old(self).threshold
            },
    {
        let n = data.opcodes.len();
        let m = data.constants.len();
        if n > HARD_MEMORY_LIMIT / OPCODE_SIZE || m > HARD_MEMORY_LIMIT / VALUE_SIZE {
            assert(n * OPCODE_SIZE + m * VALUE_SIZE > HARD_MEMORY_LIMIT) by (nonlinear_arith)
                requires
                    n > HARD_MEMORY_LIMIT / OPCODE_SIZE || m > HARD_MEMORY_LIMIT / VALUE_SIZE,
                    n >= 0,
                    m >= 0,
            ;
            return None;
        }
        assert(n * OPCODE_SIZE <= HARD_MEMORY_LIMIT && m * VALUE_SIZE <= HARD_MEMORY_LIMIT)
            by (nonlinear_arith)
            requires
                n <= HARD_MEMORY_LIMIT / OPCODE_SIZE,
                m <= HARD_MEMORY_LIMIT / VALUE_SIZE,
        ;
        let size = FUNCTION_HEADER_SIZE + n * OPCODE_SIZE + m * VALUE_SIZE;
        self.alloc_raw_object(LuaObject::Function(data), size)
    }

    /// A new upvalue object. `None` when it would pass the limit.
    pub fn alloc_upvalue_object(&mut self, data: LuaUpValue) -> (r: Option<usize>)
        requires
            old(self).wf(),
        ensures
            final(self).wf(),
            old(self).unmarked() ==> final(self).unmarked(),
            r is None <==> old(self).total_allocated + UPVALUE_HEADER_SIZE > HARD_MEMORY_LIMIT,
            r is None ==> *final(self) == *old(self),
            r matches Some(h) ==> {
                &&& h == old(self).all_objects.len()
                &&& final(self).all_objects@ == old(self).all_objects@.push(
                    Some(
                        GCObject {
                            mark: false,
                            kind: ObjectKind::UpValue,
                            size: UPVALUE_HEADER_SIZE,
                            data: LuaObject::UpValue(data),
                        },
                    ),
                )
                &&& final(self).total_allocated == old(self).total_allocated + UPVALUE_HEADER_SIZE
                &&& final(self).max_allocated == spec_peak(
                    old(self).max_allocated,
                    final(self).total_allocated,
                )
                &&& final(self).string_pool == old(self).string_pool
                &&& final(self).threshold == old(self).threshold
            },
    {
        self.alloc_raw_object(LuaObject::UpValue(data), UPVALUE_HEADER_SIZE)
    }

    /// Sets or clears the mark of an object.
    pub fn set_mark(&mut self, h: usize, value: bool)
        requires
            spec_live(old(self).all_objects@, h),
        ensures
            final(self).all_objects@ == old(self).all_objects@.update(
                h as int,
                Some(
                    GCObject {
                        mark: value,
                        kind: old(self).all_objects[h as int]->0.kind,
                        size: old(self).all_objects[h as int]->0.size,
                        data: old(self).all_objects[h as int]->0.data,
                    },
                ),
            ),
            final(self).string_pool == old(self).string_pool,
            final(self).total_allocated == old(self).total_allocated,
            final(self).threshold == old(self).threshold,
            final(self).max_allocated == old(self).max_allocated,
    {
        match &mut self.all_objects[h] {
            Some(o) => {
                o.mark = value;
            },
            None => {},
        }
        assert(self.all_objects@ =~= old(self).all_objects@.update(
            h as int,
            Some(
                GCObject {
                    mark: value,
                    kind: old(self).all_objects[h as int]->0.kind,
                    size: old(self).all_objects[h as int]->0.size,
                    data: old(self).all_objects[h as int]->0.data,
                },
            ),
        ));
    }

    /// The mark phase: sets the mark of exactly the objects that can be
    /// reached from the roots, and changes nothing else.
    pub fn mark_from(&mut self, roots: Vec<usize>)
        requires
            old(self).unmarked(),
        ensures
            spec_same_but_marks(old(self).all_objects@, final(self).all_objects@),
            forall|h: usize|
                spec_marked(final(self).all_objects@, h) <==> spec_reachable(
                    old(self).all_objects@,
                    roots@,
                    h,
                ),
            final(self).string_pool == old(self).string_pool,
            final(self).total_allocated == old(self).total_allocated,
            final(self).threshold == old(self).threshold,
            final(self).max_allocated == old(self).max_allocated,
            old(self).wf() ==> final(self).wf(),
    {
        let ghost old_objs = self.all_objects@;
        let ghost root_seq = roots@;
        let mut work = roots;
        proof {
            assert forall|k: int| 0 <= k < work.len() && spec_live(old_objs, #[trigger] work[k])
                implies spec_reachable(old_objs, root_seq, work[k]) by {
                lemma_root_reachable(old_objs, root_seq, work[k]);
            }
        }
        while work.len() > 0
            invariant
                spec_same_but_marks(old_objs, self.all_objects@),
                old_objs == old(self).all_objects@,
                self.string_pool == old(self).string_pool,
                self.total_allocated == old(self).total_allocated,
                self.threshold == old(self).threshold,
                self.max_allocated == old(self).max_allocated,
                forall|h: usize|
                    spec_marked(self.all_objects@, h) ==> spec_reachable(old_objs, root_seq, h),
                forall|k: int|
                    0 <= k < work.len() && spec_live(old_objs, #[trigger] work[k])
                        ==> spec_reachable(old_objs, root_seq, work[k]),
                forall|r: usize|
                    root_seq.contains(r) && spec_live(old_objs, r) ==> spec_marked(
                        self.all_objects@,
                        r,
                    ) || work@.contains(r),
                forall|a: usize, b: usize|
                    spec_marked(self.all_objects@, a) && #[trigger] spec_edge(old_objs, a, b)
                        ==> spec_marked(self.all_objects@, b) || work@.contains(b),
            decreases spec_count_unmarked(self.all_objects@), work.len(),
        {
            let ghost work0 = work@;
            let ghost objs0 = self.all_objects@;
            let h = work.pop().unwrap();
            let ghost work1 = work@;
            proof {
                assert forall|c: usize| work0.contains(c) implies c == h || work1.contains(c) by {
                    let k = choose|k: int| 0 <= k < work0.len() && work0[k] == c;
                    if k < work0.len() - 1 {
                        assert(work1[k] == c);
                    }
                }
                assert(work0[work0.len() - 1] == h);
            }
            let mut need: bool = false;
            if h < self.all_objects.len() {
                need = match &self.all_objects[h] {
                    Some(o) => !o.mark,
                    None => false,
                };
            }
            if need {
                self.set_mark(h, true);
                match &self.all_objects[h] {
                    Some(o) => {
                        o.data.collect_refs(&mut work);
                    },
                    None => {},
                }
                proof {
                    let objs1 = self.all_objects@;
                    let added = work@.subrange(work1.len() as int, work@.len() as int);
                    lemma_count_unmarked_set(objs0, h as int, objs1[h as int]->0);
                    assert(old_objs[h as int] is Some);
                    assert(objs1[h as int]->0.data == old_objs[h as int]->0.data);
                    assert(spec_reachable(old_objs, root_seq, h));
                    assert forall|c: usize| work1.contains(c) implies work@.contains(c) by {
                        let k = choose|k: int| 0 <= k < work1.len() && work1[k] == c;
                        assert(work@.subrange(0, work1.len() as int)[k] == c);
                        assert(work@[k] == c);
                    }
                    assert forall|c: usize| added.contains(c) implies work@.contains(c) by {
                        let k = choose|k: int| 0 <= k < added.len() && added[k] == c;
                        assert(work@[work1.len() + k] == c);
                    }
                    assert forall|x: usize| spec_marked(objs1, x) implies spec_reachable(
                        old_objs,
                        root_seq,
                        x,
                    ) by {
                        if x != h {
                            assert(spec_marked(objs0, x));
                        }
                    }
                    assert forall|k: int|
                        0 <= k < work.len() && spec_live(old_objs, #[trigger] work[k])
                        implies spec_reachable(old_objs, root_seq, work[k]) by {
                        if k < work1.len() {
                            assert(work@.subrange(0, work1.len() as int)[k] == work@[k]);
                            assert(work0[k] == work@[k]);
                        } else {
                            assert(added[k - work1.len()] == work@[k]);
                            assert(added.contains(work@[k]));
                            assert(spec_edge(old_objs, h, work@[k]));
                            lemma_reachable_step(old_objs, root_seq, h, work@[k]);
                        }
                    }
                    assert forall|r: usize|
                        root_seq.contains(r) && spec_live(old_objs, r) implies spec_marked(objs1, r)
                        || work@.contains(r) by {
                        if !spec_marked(objs0, r) {
                            assert(work0.contains(r));
                        } else {
                            assert(objs1[r as int]->0.mark);
                        }
                    }
                    assert forall|a: usize, b: usize|
                        spec_marked(objs1, a) && #[trigger] spec_edge(old_objs, a, b)
                        implies spec_marked(objs1, b) || work@.contains(b) by {
                        if a == h {
                            assert(added.contains(b));
                        } else {
                            assert(spec_marked(objs0, a));
                            if spec_marked(objs0, b) {
                                assert(objs1[b as int]->0.mark);
                            } else {
                                assert(work0.contains(b));
                            }
                        }
                    }
                    assert(spec_same_but_marks(old_objs, objs1)) by {
                        assert forall|i: int| 0 <= i < old_objs.len() implies match (
                            #[trigger] old_objs[i],
                            objs1[i],
                        ) {
                            (Some(x), Some(y)) => x.kind == y.kind && x.size == y.size && x.data
                                == y.data,
                            (None, None) => true,
                            _ => false,
                        } by {
                            assert(match (old_objs[i], objs0[i]) {
                                (Some(x), Some(y)) => x.kind == y.kind && x.size == y.size
                                    && x.data == y.data,
                                (None, None) => true,
                                _ => false,
                            });
                        }
                    }
                }
            } else {
                proof {
                    assert forall|r: usize|
                        root_seq.contains(r) && spec_live(old_objs, r) implies spec_marked(
                        self.all_objects@,
                        r,
                    ) || work@.contains(r) by {
                        if !spec_marked(objs0, r) {
                            assert(work0.contains(r));
                        }
                    }
                    assert forall|a: usize, b: usize|
                        spec_marked(self.all_objects@, a) && #[trigger] spec_edge(old_objs, a, b)
                        implies spec_marked(self.all_objects@, b) || work@.contains(b) by {
                        if !spec_marked(objs0, b) {
                            assert(work0.contains(b));
                        }
                    }
                }
            }
        }
        proof {
            let objs = self.all_objects@;
            let marked = Set::new(|h: usize| spec_marked(objs, h));
            assert forall|h: usize| spec_reachable(old_objs, root_seq, h) implies spec_marked(
                objs,
                h,
            ) by {
                let p = choose|p: Seq<usize>|
                    spec_is_path(old_objs, root_seq, p) && #[trigger] p.last() == h;
                assert forall|r: usize|
                    root_seq.contains(r) && spec_live(old_objs, r) implies marked.contains(r) by {
                    assert(!work@.contains(r));
                }
                assert forall|a: usize, b: usize|
                    marked.contains(a) && spec_edge(old_objs, a, b) implies marked.contains(b) by {
                    assert(!work@.contains(b));
                }
                lemma_closed_holds_reachable(old_objs, root_seq, marked, p);
            }
            if old(self).wf() {
                lemma_same_but_marks_sum(old_objs, objs);
                assert forall|h: int| 0 <= h < objs.len() && objs[h] is Some implies (
                #[trigger] objs[h])->0.kind == spec_object_kind(objs[h]->0.data) by {
                    assert(old_objs[h] is Some);
                }
                assert forall|i: int| 0 <= i < self.string_pool.len() implies spec_is_string(
                    objs,
                    (#[trigger] self.string_pool[i]).1,
                    self.string_pool[i].0@,
                ) by {
                    let e = old(self).string_pool[i];
                    assert(spec_is_string(old_objs, e.1, e.0@));
                    assert(old_objs[e.1 as int] is Some);
                }
            }
        }
    }

    /// The sweep phase: frees every unmarked object, takes its text out of
    /// the intern table if it is a string, and clears the marks of the
    /// others. Returns how many objects and how many bytes were freed.
    pub fn sweep(&mut self) -> (r: (usize, usize))
        requires
            old(self).wf(),
        ensures
            final(self).all_objects@ == old(self).all_objects@.map_values(
                |o: Option<GCObject<LuaObject>>| spec_swept(o),
            ),
            final(self).string_pool@ == old(self).string_pool@.filter(
                |e: (String, usize)| spec_marked(old(self).all_objects@, e.1),
            ),
            final(self).total_allocated as nat == spec_sum_sizes(final(self).all_objects@),
            final(self).total_allocated + r.1 == old(self).total_allocated,
            r.0 == spec_count_unmarked(old(self).all_objects@),
            spec_count_live(final(self).all_objects@) + r.0 == spec_count_live(
                old(self).all_objects@,
            ),
            final(self).threshold == old(self).threshold,
            final(self).max_allocated == old(self).max_allocated,
            final(self).wf(),
            final(self).unmarked(),
    {
        let ghost old_objs = self.all_objects@;
        let ghost old_pool = self.string_pool@;
        let n = self.all_objects.len();
        let mut h: usize = 0;
        let mut count: usize = 0;
        let mut bytes: usize = 0;
        while h < n
            invariant
                h <= n,
                n == old_objs.len(),
                self.all_objects@.len() == n,
                forall|k: int| 0 <= k < h ==> #[trigger] self.all_objects@[k] == spec_swept(old_objs[k]),
                forall|k: int| h <= k < n ==> #[trigger] self.all_objects@[k] == old_objs[k],
                self.total_allocated as nat == spec_sum_sizes(self.all_objects@),
                self.total_allocated + bytes == old(self).total_allocated,
                count == spec_count_unmarked(old_objs.subrange(0, h as int)),
                count <= h,
                self.string_pool@ == old_pool,
                self.threshold == old(self).threshold,
                self.max_allocated == old(self).max_allocated,
            decreases n - h,
        {
            let ghost objs0 = self.all_objects@;
            proof {
                assert(old_objs.subrange(0, h + 1).drop_last() =~= old_objs.subrange(0, h as int));
                assert(old_objs.subrange(0, h + 1).last() == old_objs[h as int]);
                lemma_count_unmarked_bound(old_objs.subrange(0, h + 1));
            }
            let state: Option<(bool, usize)> = match &self.all_objects[h] {
                Some(o) => Some((o.mark, o.size)),
                None => None,
            };
            match state {
                Some((true, _)) => {
                    self.set_mark(h, false);
                    proof {
                        lemma_sum_sizes_update(objs0, h as int, self.all_objects@[h as int]);
                    }
                },
                Some((false, size)) => {
                    proof {
                        lemma_sum_sizes_update(objs0, h as int, None);
                        lemma_sum_sizes_bounds(objs0, h as int);
                    }
                    self.all_objects[h] = None;
                    self.total_allocated = self.total_allocated - size;
                    bytes = bytes + size;
                    count = count + 1;
                },
                None => {},
            }
            h += 1;
        }
        assert(self.all_objects@ =~= old_objs.map_values(
            |o: Option<GCObject<LuaObject>>| spec_swept(o),
        ));
        proof {
            assert(old_objs.subrange(0, n as int) =~= old_objs);
            lemma_count_swept(old_objs);
        }
        let ghost keep = |e: (String, usize)| spec_marked(old_objs, e.1);
        let mut kept: Vec<(String, usize)> = Vec::new();
        let ghost mut from: Seq<int> = Seq::empty();
        let mut i: usize = 0;
        proof {
            reveal(Seq::filter);
            assert(old_pool.subrange(0, 0) =~= Seq::<(String, usize)>::empty());
        }
        while i < self.string_pool.len()
            invariant
                i <= self.string_pool.len(),
                self.string_pool@ == old_pool,
                self.all_objects@.len() == old_objs.len(),
                forall|k: int|
                    0 <= k < old_objs.len() ==> #[trigger] self.all_objects@[k] == spec_swept(
                        old_objs[k],
                    ),
                kept@ == old_pool.subrange(0, i as int).filter(keep),
                keep == |e: (String, usize)| spec_marked(old_objs, e.1),
                from.len() == kept@.len(),
                forall|k: int| 0 <= k < from.len() ==> 0 <= #[trigger] from[k] < i,
                forall|k: int| 0 <= k < from.len() ==> kept@[k] == old_pool[#[trigger] from[k]],
                forall|k: int, l: int| 0 <= k < l < from.len() ==> #[trigger] from[k] < #[trigger] from[l],
                forall|k: int| 0 <= k < kept@.len() ==> spec_marked(old_objs, (#[trigger] kept@[k]).1),
            decreases self.string_pool.len() - i,
        {
            let target = self.string_pool[i].1;
            let alive = target < self.all_objects.len() && self.all_objects[target].is_some();
            proof {
                reveal(Seq::filter);
                assert(old_pool.subrange(0, i + 1).drop_last() =~= old_pool.subrange(0, i as int));
                assert(old_pool.subrange(0, i + 1).last() == old_pool[i as int]);
                if target < old_objs.len() {
                    assert(self.all_objects@[target as int] == spec_swept(old_objs[target as int]));
                }
                assert(alive == spec_marked(old_objs, target));
            }
            if alive {
                let entry = (self.string_pool[i].0.clone(), target);
                kept.push(entry);
                proof {
                    from = from.push(i as int);
                }
            }
            i += 1;
        }
        proof {
            assert(old_pool.subrange(0, old_pool.len() as int) =~= old_pool);
        }
        self.string_pool = kept;
        proof {
            let objs = self.all_objects@;
            assert forall|k: int| 0 <= k < objs.len() && objs[k] is Some implies (
            #[trigger] objs[k])->0.kind == spec_object_kind(objs[k]->0.data) by {
                assert(objs[k] == spec_swept(old_objs[k]));
                assert(old_objs[k] is Some);
            }
            assert forall|k: int| 0 <= k < self.string_pool.len() implies spec_is_string(
                objs,
                (#[trigger] self.string_pool[k]).1,
                self.string_pool[k].0@,
            ) by {
                let e = old_pool[from[k]];
                assert(spec_is_string(old_objs, e.1, e.0@));
                assert(objs[e.1 as int] == spec_swept(old_objs[e.1 as int]));
            }
            assert forall|k: int, l: int|
                0 <= k < l < self.string_pool.len() implies #[trigger] self.string_pool[k].0@
                != #[trigger] self.string_pool[l].0@ by {
                assert(from[k] < from[l]);
                assert(old_pool[from[k]].0@ != old_pool[from[l]].0@);
            }
            assert forall|x: usize| !spec_marked(objs, x) by {
                if (x as int) < objs.len() {
                    assert(objs[x as int] == spec_swept(old_objs[x as int]));
                }
            }
        }
        (count, bytes)
    }

    /// One collection: marks what the roots reach and sweeps the rest.
    /// Every object that the roots reach is afterwards what it was before;
    /// every other slot is empty.
    pub fn collect(&mut self, roots: Vec<usize>) -> (r: (usize, usize))
        requires
            old(self).wf(),
            old(self).unmarked(),
        ensures
            final(self).wf(),
            final(self).unmarked(),
            final(self).all_objects@.len() == old(self).all_objects@.len(),
            forall|h: usize|
                spec_reachable(old(self).all_objects@, roots@, h) ==> final(self).all_objects@[h as int]
                    == old(self).all_objects@[h as int],
            forall|h: usize|
                (h as int) < old(self).all_objects@.len() && !spec_reachable(
                    old(self).all_objects@,
                    roots@,
                    h,
                ) ==> final(self).all_objects@[h as int] is None,
            final(self).string_pool@ == old(self).string_pool@.filter(
                |e: (String, usize)| spec_reachable(old(self).all_objects@, roots@, e.1),
            ),
            final(self).total_allocated + r.1 == old(self).total_allocated,
            spec_count_live(final(self).all_objects@) + r.0 == spec_count_live(
                old(self).all_objects@,
            ),
            final(self).threshold == old(self).threshold,
            final(self).max_allocated == old(self).max_allocated,
    {
        let ghost old_objs = self.all_objects@;
        let ghost root_seq = roots@;
        self.mark_from(roots);
        let ghost marked_objs = self.all_objects@;
        let r = self.sweep();
        proof {
            lemma_same_but_marks_count(old_objs, marked_objs);
            assert forall|h: usize| spec_reachable(old_objs, root_seq, h) implies self.all_objects@[h as int]
                == old_objs[h as int] by {
                assert(spec_marked(marked_objs, h));
                assert(!spec_marked(old_objs, h));
                assert(old_objs[h as int] is Some);
            }
            assert forall|h: usize|
                (h as int) < old_objs.len() && !spec_reachable(
                    old_objs,
                    root_seq,
                    h,
                ) implies self.all_objects@[h as int] is None by {
                assert(!spec_marked(marked_objs, h));
            }
            let f1 = |e: (String, usize)| spec_marked(marked_objs, e.1);
            let f2 = |e: (String, usize)| spec_reachable(old_objs, root_seq, e.1);
            assert(f1 =~= f2);
        }
        r
    }

    /// Whether more is allocated than the threshold allows.
    pub fn check_gc_condition(&self) -> (r: bool)
        ensures
            r == (self.total_allocated > self.threshold),
    {
        self.total_allocated > self.threshold
    }

    /// Doubles the threshold; it stays at the largest number when the double
    /// does not fit.
    pub fn expand_threshold(&mut self)
        ensures
            final(self).threshold == if old(self).threshold * 2 > usize::MAX {
                usize::MAX
            } else {
                (old(self).threshold * 2) as usize
            },
            final(self).all_objects == old(self).all_objects,
            final(self).string_pool == old(self).string_pool,
            final(self).total_allocated == old(self).total_allocated,
            final(self).max_allocated == old(self).max_allocated,
    {
        if self.threshold > usize::MAX / 2 {
            self.threshold = usize::MAX;
        } else {
            self.threshold = self.threshold * 2;
        }
    }
}

/// The index of the first entry of a table whose key is the same value.
pub open spec fn spec_table_find(entries: Seq<(LuaValue, LuaValue)>, key: LuaValue) -> Option<int>
    decreases entries.len(),
{
    if entries.len() == 0 {
        None
    } else {
        match spec_table_find(entries.drop_last(), key) {
            Some(i) => Some(i),
            None => if spec_same_value(entries.last().0, key) {
                Some(entries.len() - 1)
            } else {
                None
            },
        }
    }
}

/// The value that a table holds for a key; `Nil` where it holds none.
pub open spec fn spec_table_get(entries: Seq<(LuaValue, LuaValue)>, key: LuaValue) -> LuaValue {
    match spec_table_find(entries, key) {
        Some(i) => entries[i].1,
        None => LuaValue::Nil,
    }
}

/// The entries of a table after a value is stored under a key: the entry of
/// the key gets the value, or a new entry is put at the end.
pub open spec fn spec_table_put(
    entries: Seq<(LuaValue, LuaValue)>,
    key: LuaValue,
    value: LuaValue,
) -> Seq<(LuaValue, LuaValue)> {
    match spec_table_find(entries, key) {
        Some(i) => entries.update(i, (entries[i].0, value)),
        None => entries.push((key, value)),
    }
}

/// What `spec_table_find` finds.
pub proof fn lemma_table_find(entries: Seq<(LuaValue, LuaValue)>, key: LuaValue)
    ensures
        match spec_table_find(entries, key) {
            Some(i) => 0 <= i < entries.len() && spec_same_value(entries[i].0, key) && forall|
                j: int,
            |
                0 <= j < i ==> !spec_same_value((#[trigger] entries[j]).0, key),
            None => forall|j: int|
                0 <= j < entries.len() ==> !spec_same_value((#[trigger] entries[j]).0, key),
        },
    decreases entries.len(),
{
    if entries.len() > 0 {
        lemma_table_find(entries.drop_last(), key);
        match spec_table_find(entries.drop_last(), key) {
            Some(i) => {
                assert(entries.drop_last()[i] == entries[i]);
                assert forall|j: int| 0 <= j < i implies !spec_same_value(
                    (#[trigger] entries[j]).0,
                    key,
                ) by {
                    assert(entries.drop_last()[j] == entries[j]);
                }
            },
            None => {
                assert forall|j: int| 0 <= j < entries.len() - 1 implies !spec_same_value(
                    (#[trigger] entries[j]).0,
                    key,
                ) by {
                    assert(entries.drop_last()[j] == entries[j]);
                }
            },
        }
    }
}

/// The text of the string object, the entries of the table object, the
/// state of the upvalue object that the handle names.
pub open spec fn spec_string_at(objs: Slots, h: usize) -> Option<Seq<char>> {
    if spec_live(objs, h) {
        match objs[h as int]->0.data {
            LuaObject::String(s) => Some(s@),
            _ => None,
        }
    } else {
        None
    }
}

pub open spec fn spec_table_at(objs: Slots, h: usize) -> Option<Seq<(LuaValue, LuaValue)>> {
    if spec_live(objs, h) {
        match objs[h as int]->0.data {
            LuaObject::Table(t) => Some(t.data@),
            _ => None,
        }
    } else {
        None
    }
}

pub open spec fn spec_upvalue_at(objs: Slots, h: usize) -> Option<LuaUpValueState> {
    if spec_live(objs, h) {
        match objs[h as int]->0.data {
            LuaObject::UpValue(u) => Some(u.value),
            _ => None,
        }
    } else {
        None
    }
}

/// The stack place on which the upvalue object that the handle names is
/// open, if it is an open upvalue.
pub open spec fn spec_open_at(objs: Slots, h: usize) -> Option<usize> {
    match spec_upvalue_at(objs, h) {
        Some(LuaUpValueState::Open(idx)) => Some(idx),
        _ => None,
    }
}

pub open spec fn spec_function_at(objs: Slots, h: usize) -> Option<LFunction> {
    if spec_live(objs, h) {
        match objs[h as int]->0.data {
            LuaObject::Function(f) => Some(f),
            _ => None,
        }
    } else {
        None
    }
}

/// The slots with the payload of one object replaced.
pub open spec fn spec_with_data(objs: Slots, h: usize, data: LuaObject) -> Slots {
    objs.update(
        h as int,
        Some(
            GCObject {
                mark: objs[h as int]->0.mark,
                kind: objs[h as int]->0.kind,
                size: objs[h as int]->0.size,
                data,
            },
        ),
    )
}

impl Heap {
    /// Whether the heap is `old` with one more object, unmarked and of the
    /// given size.
    pub open spec fn grown_by(&self, old: &Heap, data: LuaObject, size: nat) -> bool {
        &&& self.all_objects@ == old.all_objects@.push(
            Some(
                GCObject {
                    mark: false,
                    kind: spec_object_kind(data),
                    size: size as usize,
                    data,
                },
            ),
        )
        &&& self.total_allocated == old.total_allocated + size
        &&& self.max_allocated == spec_peak(old.max_allocated, self.total_allocated)
        &&& self.string_pool == old.string_pool
        &&& self.threshold == old.threshold
    }

    /// Whether the heap is `old` after the text was interned under handle
    /// `h`: as `old` where the text was interned already, else with one more
    /// string object and one more entry in the intern table.
    pub open spec fn interned_into(&self, old: &Heap, text: Seq<char>, h: usize) -> bool {
        match old.interned(text) {
            Some(x) => h == x && *self == *old,
            None => {
                &&& h == old.all_objects@.len()
                &&& self.all_objects@.len() == old.all_objects@.len() + 1
                &&& self.all_objects@.subrange(0, old.all_objects@.len() as int)
                    == old.all_objects@
                &&& spec_is_string(self.all_objects@, h, text)
                &&& !self.all_objects@[h as int]->0.mark
                &&& self.all_objects@[h as int]->0.size == spec_string_size(text)
                &&& self.total_allocated == old.total_allocated + spec_string_size(text)
                &&& self.max_allocated == spec_peak(old.max_allocated, self.total_allocated)
                &&& self.threshold == old.threshold
                &&& self.string_pool@.len() == old.string_pool@.len() + 1
                &&& self.string_pool@.subrange(0, old.string_pool@.len() as int)
                    == old.string_pool@
                &&& self.string_pool@.last().0@ == text
                &&& self.string_pool@.last().1 == h
            },
        }
    }

    /// Interning is unique: a text that is interned a second time gets the
    /// handle that it got the first time, and the heap stays as it is.
    pub proof fn lemma_intern_twice(
        &self,
        first: &Heap,
        old: &Heap,
        text: Seq<char>,
        a: usize,
        b: usize,
    )
        requires
            old.pool_wf(),
            first.pool_wf(),
            first.interned_into(old, text, a),
            self.interned_into(first, text, b),
        ensures
            a == b,
            *self == *first,
    {
        old.lemma_interned(text);
        first.lemma_interned(text);
        if old.interned(text) is None {
            assert(first.string_pool@.last().0@ == text);
        }
    }

    /// Whether the heap is as `old` but for the payload of object `h`,
    /// which is of the same kind as before.
    pub open spec fn same_but_data(&self, old: &Heap, h: usize, data: LuaObject) -> bool {
        &&& self.all_objects@ == spec_with_data(old.all_objects@, h, data)
        &&& self.string_pool == old.string_pool
        &&& self.total_allocated == old.total_allocated
        &&& self.threshold == old.threshold
        &&& self.max_allocated == old.max_allocated
    }

    /// Replacing the payload of an object that is no string by one of the
    /// same kind keeps the heap's invariant.
    pub proof fn lemma_same_but_data_wf(&self, old: &Heap, h: usize, data: LuaObject)
        requires
            old.wf(),
            spec_live(old.all_objects@, h),
            self.same_but_data(old, h, data),
            spec_object_kind(data) == old.all_objects@[h as int]->0.kind,
            !(data is String),
        ensures
            self.wf(),
            old.unmarked() ==> self.unmarked(),
    {
        lemma_sum_sizes_update(old.all_objects@, h as int, self.all_objects@[h as int]);
        assert forall|i: int| 0 <= i < self.string_pool.len() implies spec_is_string(
            self.all_objects@,
            (#[trigger] self.string_pool[i]).1,
            self.string_pool[i].0@,
        ) by {
            let e = old.string_pool[i];
            assert(spec_is_string(old.all_objects@, e.1, e.0@));
        }
        if old.unmarked() {
            assert forall|x: usize| !spec_marked(self.all_objects@, x) by {
                assert(!spec_marked(old.all_objects@, x));
            }
        }
    }

    /// A copy of the text of a string object.
    pub fn string_of(&self, h: usize) -> (r: Option<String>)
        ensures
            match r {
                Some(s) => spec_string_at(self.all_objects@, h) == Some(s@),
                None => spec_string_at(self.all_objects@, h) is None,
            },
    {
        if h >= self.all_objects.len() {
            return None;
        }
        match &self.all_objects[h] {
            Some(o) => match &o.data {
                LuaObject::String(s) => Some(s.clone()),
                _ => None,
            },
            None => None,
        }
    }

    /// The number of bytes of the text of a string object.
    pub fn string_len(&self, h: usize) -> (r: Option<usize>)
        ensures
            match r {
                Some(n) => spec_string_at(self.all_objects@, h) matches Some(s) && n
                    == encode_utf8(s).len(),
                None => spec_string_at(self.all_objects@, h) is None,
            },
    {
        if h >= self.all_objects.len() {
            return None;
        }
        match &self.all_objects[h] {
            Some(o) => match &o.data {
                LuaObject::String(s) => Some(s.as_str().as_bytes().len()),
                _ => None,
            },
            None => None,
        }
    }

    /// The number of entries of a table object.
    pub fn table_len(&self, h: usize) -> (r: Option<usize>)
        ensures
            match r {
                Some(n) => spec_table_at(self.all_objects@, h) matches Some(t) && n == t.len(),
                None => spec_table_at(self.all_objects@, h) is None,
            },
    {
        if h >= self.all_objects.len() {
            return None;
        }
        match &self.all_objects[h] {
            Some(o) => match &o.data {
                LuaObject::Table(t) => Some(t.data.len()),
                _ => None,
            },
            None => None,
        }
    }

    /// The value that a table object holds for a key, `Nil` where it holds
    /// none; `None` where the handle names no table.
    pub fn table_get(&self, h: usize, key: &LuaValue) -> (r: Option<LuaValue>)
        ensures
            r == match spec_table_at(self.all_objects@, h) {
                Some(t) => Some(spec_table_get(t, *key)),
                None => None,
            },
    {
        if h >= self.all_objects.len() {
            return None;
        }
        match &self.all_objects[h] {
            Some(o) => match &o.data {
                LuaObject::Table(t) => {
                    let mut i: usize = 0;
                    while i < t.data.len()
                        invariant
                            i <= t.data.len(),
                            spec_table_at(self.all_objects@, h) == Some(t.data@),
                            forall|j: int|
                                0 <= j < i ==> !spec_same_value((#[trigger] t.data@[j]).0, *key),
                        decreases t.data.len() - i,
                    {
                        if t.data[i].0.same_value(key) {
                            proof {
                                lemma_table_find(t.data@, *key);
                                match spec_table_find(t.data@, *key) {
                                    Some(k) => {
                                        if k < i {
                                            assert(!spec_same_value(t.data@[k].0, *key));
                                        }
                                    },
                                    None => {},
                                }
                            }
                            return Some(t.data[i].1.dup());
                        }
                        i += 1;
                    }
                    proof {
                        lemma_table_find(t.data@, *key);
                    }
                    Some(LuaValue::Nil)
                },
                _ => None,
            },
            None => None,
        }
    }

    /// Stores a value under a key in a table object. Returns whether the
    /// handle names a table; where it does not, nothing changes.
    pub fn table_put(&mut self, h: usize, key: LuaValue, value: LuaValue) -> (r: bool)
        requires
            old(self).wf(),
        ensures
            final(self).wf(),
            old(self).unmarked() ==> final(self).unmarked(),
            r == spec_table_at(old(self).all_objects@, h) is Some,
            !r ==> *final(self) == *old(self),
            r ==> final(self).same_but_data(
                old(self),
                h,
                LuaObject::Table(
                    LuaTable {
                        data: final(self).all_objects@[h as int]->0.data->Table_0.data,
                        metatable: old(self).all_objects@[h as int]->0.data->Table_0.metatable,
                    },
                ),
            ) && final(self).all_objects@[h as int]->0.data is Table && spec_table_at(
                final(self).all_objects@,
                h,
            ) == Some(spec_table_put(spec_table_at(old(self).all_objects@, h)->0, key, value)),
    {
        if h >= self.all_objects.len() {
            return false;
        }
        let is_table = match &self.all_objects[h] {
            Some(o) => match &o.data {
                LuaObject::Table(_) => true,
                _ => false,
            },
            None => false,
        };
        if !is_table {
            return false;
        }
        let ghost entries = spec_table_at(self.all_objects@, h)->0;
        match &mut self.all_objects[h] {
            Some(o) => match &mut o.data {
                LuaObject::Table(t) => {
                    let mut i: usize = 0;
                    let mut found: Option<usize> = None;
                    while i < t.data.len() && found.is_none()
                        invariant
                            i <= t.data.len(),
                            t.data@ == entries,
                            match found {
                                Some(k) => k < entries.len() && spec_table_find(entries, key)
                                    == Some(k as int),
                                None => forall|j: int|
                                    0 <= j < i ==> !spec_same_value((#[trigger] entries[j]).0, key),
                            },
                        decreases t.data.len() - i + (if found is None { 1int } else { 0int }),
                    {
                        if t.data[i].0.same_value(&key) {
                            proof {
                                lemma_table_find(entries, key);
                                match spec_table_find(entries, key) {
                                    Some(k) => {
                                        if k < i {
                                            assert(!spec_same_value(entries[k].0, key));
                                        }
                                    },
                                    None => {},
                                }
                            }
                            found = Some(i);
                        } else {
                            i += 1;
                        }
                    }
                    proof {
                        lemma_table_find(entries, key);
                    }
                    match found {
                        Some(k) => {
                            t.data[k].1 = value;
                            assert(t.data@ =~= spec_table_put(entries, key, value));
                        },
                        None => {
                            t.data.push((key, value));
                        },
                    }
                },
                _ => {},
            },
            None => {},
        }
        proof {
            let data = self.all_objects@[h as int]->0.data;
            assert(self.all_objects@ =~= spec_with_data(old(self).all_objects@, h, data));
            self.lemma_same_but_data_wf(old(self), h, data);
        }
        true
    }

    /// The state of an upvalue object.
    pub fn upvalue_state(&self, h: usize) -> (r: Option<LuaUpValueState>)
        ensures
            r == spec_upvalue_at(self.all_objects@, h),
    {
        if h >= self.all_objects.len() {
            return None;
        }
        match &self.all_objects[h] {
            Some(o) => match &o.data {
                LuaObject::UpValue(u) => match &u.value {
                    LuaUpValueState::Open(i) => Some(LuaUpValueState::Open(*i)),
                    LuaUpValueState::Closed(v) => Some(LuaUpValueState::Closed(v.dup())),
                },
                _ => None,
            },
            None => None,
        }
    }

    /// Makes an upvalue object closed over the given value. Returns whether
    /// the handle names an upvalue; where it does not, nothing changes.
    pub fn upvalue_close(&mut self, h: usize, value: LuaValue) -> (r: bool)
        requires
            old(self).wf(),
        ensures
            final(self).wf(),
            old(self).unmarked() ==> final(self).unmarked(),
            r == spec_upvalue_at(old(self).all_objects@, h) is Some,
            !r ==> *final(self) == *old(self),
            r ==> final(self).same_but_data(
                old(self),
                h,
                LuaObject::UpValue(LuaUpValue { value: LuaUpValueState::Closed(value) }),
            ),
    {
        if h >= self.all_objects.len() {
            return false;
        }
        let is_upvalue = match &self.all_objects[h] {
            Some(o) => match &o.data {
                LuaObject::UpValue(_) => true,
                _ => false,
            },
            None => false,
        };
        if !is_upvalue {
            return false;
        }
        match &mut self.all_objects[h] {
            Some(o) => {
                o.data = LuaObject::UpValue(LuaUpValue { value: LuaUpValueState::Closed(value) });
            },
            None => {},
        }
        proof {
            let data = LuaObject::UpValue(LuaUpValue { value: LuaUpValueState::Closed(value) });
            assert(self.all_objects@ =~= spec_with_data(old(self).all_objects@, h, data));
            self.lemma_same_but_data_wf(old(self), h, data);
        }
        true
    }

    /// The name and the captured variables of a function object.
    pub fn function_info(&self, h: usize) -> (r: Option<(String, Vec<usize>)>)
        ensures
            match r {
                Some((name, upvalues)) => spec_function_at(self.all_objects@, h) matches Some(f)
                    && name@ == f.name@ && upvalues@ == f.upvalues@,
                None => spec_function_at(self.all_objects@, h) is None,
            },
    {
        if h >= self.all_objects.len() {
            return None;
        }
        match &self.all_objects[h] {
            Some(o) => match &o.data {
                LuaObject::Function(f) => {
                    let mut ups: Vec<usize> = Vec::new();
                    let mut i: usize = 0;
                    while i < f.upvalues.len()
                        invariant
                            i <= f.upvalues.len(),
                            ups@ == f.upvalues@.subrange(0, i as int),
                        decreases f.upvalues.len() - i,
                    {
                        ups.push(f.upvalues[i]);
                        proof {
                            assert(ups@ =~= f.upvalues@.subrange(0, i + 1));
                        }
                        i += 1;
                    }
                    proof {
                        assert(f.upvalues@.subrange(0, f.upvalues@.len() as int) =~= f.upvalues@);
                    }
                    Some((f.name.clone(), ups))
                },
                _ => None,
            },
            None => None,
        }
    }
}

/// Whether one of the first `k` entries lists the handle `x` for a
/// register below `regs`.
pub open spec fn spec_listed(entries: Seq<(usize, usize)>, regs: usize, k: int, x: int) -> bool {
    exists|e: int| 0 <= e < k && e < entries.len() && (#[trigger] entries[e]).1 == x && entries[e].0 < regs
}

/// Whether the upvalue object `x` is closed over the value of a register
/// for which one of the first `k` entries lists it.
pub open spec fn spec_closed_over(
    objs: Slots,
    entries: Seq<(usize, usize)>,
    regs: usize,
    values: Seq<LuaValue>,
    base: usize,
    k: int,
    x: int,
) -> bool {
    exists|e: int|
        0 <= e < k && e < entries.len() && (#[trigger] entries[e]).1 == x && entries[e].0 < regs
            && spec_upvalue_at(objs, x as usize) == Some(
            LuaUpValueState::Closed(values[base + entries[e].0]),
        )
}

/// What closing the upvalues of the first `k` entries does to slot `x`: an
/// upvalue object that is listed is closed over the value of a register for
/// which it is listed; every other slot is as before.
pub open spec fn spec_close_state(
    before: Slots,
    objs: Slots,
    entries: Seq<(usize, usize)>,
    regs: usize,
    values: Seq<LuaValue>,
    base: usize,
    k: int,
    x: int,
) -> bool {
    if spec_listed(entries, regs, k, x) && spec_upvalue_at(before, x as usize) is Some {
        spec_closed_over(objs, entries, regs, values, base, k, x)
    } else {
        objs[x] == before[x]
    }
}

impl Heap {
    /// Closes the upvalue objects that the entries list for registers
    /// below `regs`, each over the value of its register; see
    /// [`spec_close_state`].
    pub fn close_upvalues(
        &mut self,
        entries: &Vec<(usize, usize)>,
        values: &Vec<LuaValue>,
        base: usize,
        regs: usize,
    )
        requires
            old(self).wf(),
            base + regs <= values@.len(),
        ensures
            final(self).wf(),
            old(self).unmarked() ==> final(self).unmarked(),
            final(self).all_objects@.len() == old(self).all_objects@.len(),
            final(self).string_pool == old(self).string_pool,
            final(self).total_allocated == old(self).total_allocated,
            final(self).threshold == old(self).threshold,
            final(self).max_allocated == old(self).max_allocated,
            forall|x: int|
                0 <= x < old(self).all_objects@.len() ==> #[trigger] spec_close_state(
                    old(self).all_objects@,
                    final(self).all_objects@,
                    entries@,
                    regs,
                    values@,
                    base,
                    entries@.len() as int,
                    x,
                ),
    {
        let ghost before = self.all_objects@;
        let mut k: usize = 0;
        while k < entries.len()
            invariant
                k <= entries.len(),
                base + regs <= values@.len(),
                before == old(self).all_objects@,
                self.wf(),
                old(self).unmarked() ==> self.unmarked(),
                self.all_objects@.len() == before.len(),
                self.string_pool == old(self).string_pool,
                self.total_allocated == old(self).total_allocated,
                self.threshold == old(self).threshold,
                self.max_allocated == old(self).max_allocated,
                forall|x: int|
                    0 <= x < before.len() ==> #[trigger] spec_close_state(
                        before,
                        self.all_objects@,
                        entries@,
                        regs,
                        values@,
                        base,
                        k as int,
                        x,
                    ),
            decreases entries.len() - k,
        {
            let (slot, h) = entries[k];
            let ghost objs0 = self.all_objects@;
            let mut closed = false;
            if slot < regs {
                let _n = values.len();
                let value = values[base + slot].dup();
                closed = self.upvalue_close(h, value);
            }
            proof {
                let objs1 = self.all_objects@;
                assert forall|x: int| 0 <= x < before.len() implies #[trigger] spec_close_state(
                    before,
                    objs1,
                    entries@,
                    regs,
                    values@,
                    base,
                    k + 1,
                    x,
                ) by {
                    assert(spec_close_state(before, objs0, entries@, regs, values@, base, k as int, x));
                    if slot < regs && x == h {
                        assert(entries@[k as int].1 == x);
                        assert(spec_listed(entries@, regs, k + 1, x));
                        if spec_upvalue_at(before, x as usize) is Some {
                            if spec_listed(entries@, regs, k as int, x) {
                                assert(spec_closed_over(objs0, entries@, regs, values@, base, k as int, x));
                            }
                            assert(spec_upvalue_at(objs0, x as usize) is Some);
                            assert(closed);
                            assert(spec_upvalue_at(objs1, x as usize) == Some(
                                LuaUpValueState::Closed(values@[base + entries@[k as int].0]),
                            ));
                        } else {
                            assert(objs0[x] == before[x]);
                            assert(!closed);
                        }
                    } else {
                        assert(objs1[x] == objs0[x]);
                        if spec_listed(entries@, regs, k + 1, x) {
                            let e = choose|e: int|
                                0 <= e < k + 1 && e < entries@.len() && (#[trigger] entries@[e]).1 == x
                                    && entries@[e].0 < regs;
                            assert(e < k);
                            assert(spec_listed(entries@, regs, k as int, x));
                        }
                        if spec_listed(entries@, regs, k as int, x) && spec_upvalue_at(
                            before,
                            x as usize,
                        ) is Some {
                            let e = choose|e: int|
                                0 <= e < k && e < entries@.len() && (#[trigger] entries@[e]).1 == x
                                    && entries@[e].0 < regs && spec_upvalue_at(objs0, x as usize)
                                    == Some(LuaUpValueState::Closed(values@[base + entries@[e].0]));
                            assert(spec_upvalue_at(objs1, x as usize) == spec_upvalue_at(
                                objs0,
                                x as usize,
                            ));
                        }
                    }
                }
            }
            k += 1;
        }
    }
}

} // verus!
