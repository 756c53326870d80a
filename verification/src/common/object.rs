//! Run-time values and the objects that live on the heap.

use vstd::prelude::*;
use crate::common::opcode::OpCode;

verus! {

/// A function built into the machine.
#[derive(Debug, Clone, Copy, PartialEq, Eq, Structural)]
pub enum CFunction {
    /// Writes its arguments, separated by tabs, and a newline.
    Print,
}

/// What kind of payload a heap object carries.
#[derive(Debug, Clone, Copy, PartialEq, Eq, Structural)]
pub enum ObjectKind {
    String,
    Table,
    Function,
    UpValue,
}

/// A value of the language. Heap objects are referred to by their handle, the
/// index of their slot in the heap. A number is its binary64 bit pattern.
#[derive(Debug, Clone, PartialEq)]
pub enum LuaValue {
    Nil,
    Number(u64),
    Boolean(bool),
    String(usize),
    Table(usize),
    Function(usize),
    CFunc(CFunction),
    /// A string constant that has not been interned yet. It occurs only in
    /// constant pools before the machine is initialised.
    TempString(String),
}

/// The payload of a header without data.
#[derive(Debug, Clone, Copy, PartialEq, Eq, Structural)]
pub struct HeaderOnly;

/// A heap object: the collector's header and the payload.
#[derive(Debug, Clone)]
pub struct GCObject<T> {
    pub mark: bool,
    pub kind: ObjectKind,
    pub size: usize,
    pub data: T,
}

/// A captured variable: still a slot of the shared value stack, or a value
/// of its own once the frame that held the slot has returned.
#[derive(Debug, Clone)]
pub enum LuaUpValueState {
    Open(usize),
    Closed(LuaValue),
}

#[derive(Debug, Clone)]
pub struct LuaUpValue {
    pub value: LuaUpValueState,
}

/// A table: its entries in insertion order, no key occurring twice and none
/// of them `Nil`, and a reserved metatable reference.
#[derive(Debug, Clone)]
pub struct LuaTable {
    pub data: Vec<(LuaValue, LuaValue)>,
    pub metatable: Option<usize>,
}

/// A closure: a copy of its prototype's code and constants, and the captured
/// variables as handles of upvalue objects.
#[derive(Debug, Clone)]
pub struct LFunction {
    pub name: String,
    pub opcodes: Vec<OpCode>,
    pub constants: Vec<LuaValue>,
    pub upvalues: Vec<usize>,
    pub num_locals: usize,
    pub max_stack_size: usize,
}

/// The payload of a heap object.
#[derive(Debug, Clone)]
pub enum LuaObject {
    String(String),
    Table(LuaTable),
    Function(LFunction),
    UpValue(LuaUpValue),
}

/// The handle that a value holds, if it refers to a heap object.
pub open spec fn spec_value_ref(v: LuaValue) -> Option<usize> {
    match v {
        LuaValue::String(h) => Some(h),
        LuaValue::Table(h) => Some(h),
        LuaValue::Function(h) => Some(h),
        _ => None,
    }
}

/// Whether two values are the same value: the same variant with the same
/// number pattern, boolean, handle, built-in or text. This is the identity
/// of table keys and of constant pool entries.
pub open spec fn spec_same_value(a: LuaValue, b: LuaValue) -> bool {
    match (a, b) {
        (LuaValue::Nil, LuaValue::Nil) => true,
        (LuaValue::Number(x), LuaValue::Number(y)) => x == y,
        (LuaValue::Boolean(x), LuaValue::Boolean(y)) => x == y,
        (LuaValue::String(x), LuaValue::String(y)) => x == y,
        (LuaValue::Table(x), LuaValue::Table(y)) => x == y,
        (LuaValue::Function(x), LuaValue::Function(y)) => x == y,
        (LuaValue::CFunc(x), LuaValue::CFunc(y)) => x == y,
        (LuaValue::TempString(x), LuaValue::TempString(y)) => x@ == y@,
        _ => false,
    }
}

/// Whether the payload holds the handle `h`: as a key, a value or the
/// metatable of a table, as a constant or a captured variable of a function,
/// or as the value of a closed upvalue.
pub open spec fn spec_object_refers(d: LuaObject, h: usize) -> bool {
    match d {
        LuaObject::String(_) => false,
        LuaObject::Table(t) => {
            ||| t.metatable == Some(h)
            ||| exists|i: int|
                0 <= i < t.data.len() && (#[trigger] spec_value_ref(t.data[i].0) == Some(h)
                    || spec_value_ref(t.data[i].1) == Some(h))
        },
        LuaObject::Function(f) => {
            ||| exists|i: int|
                0 <= i < f.constants.len() && #[trigger] spec_value_ref(f.constants[i]) == Some(h)
            ||| exists|i: int| 0 <= i < f.upvalues.len() && #[trigger] f.upvalues[i] == h
        },
        LuaObject::UpValue(u) => match u.value {
            LuaUpValueState::Open(_) => false,
            LuaUpValueState::Closed(v) => spec_value_ref(v) == Some(h),
        },
    }
}

/// The kind of a payload.
pub open spec fn spec_object_kind(d: LuaObject) -> ObjectKind {
    match d {
        LuaObject::String(_) => ObjectKind::String,
        LuaObject::Table(_) => ObjectKind::Table,
        LuaObject::Function(_) => ObjectKind::Function,
        LuaObject::UpValue(_) => ObjectKind::UpValue,
    }
}

impl LuaValue {
    /// A copy of the value.
    pub fn dup(&self) -> (r: LuaValue)
        ensures
            r == *self,
    {
        match self {
            LuaValue::Nil => LuaValue::Nil,
            LuaValue::Number(n) => LuaValue::Number(*n),
            LuaValue::Boolean(b) => LuaValue::Boolean(*b),
            LuaValue::String(h) => LuaValue::String(*h),
            LuaValue::Table(h) => LuaValue::Table(*h),
            LuaValue::Function(h) => LuaValue::Function(*h),
            LuaValue::CFunc(f) => LuaValue::CFunc(*f),
            LuaValue::TempString(s) => LuaValue::TempString(s.clone()),
        }
    }

    pub open spec fn spec_is_truthy(&self) -> bool {
        !(*self is Nil) && *self != LuaValue::Boolean(false)
    }

    /// Everything but `Nil` and `false` counts as true.
    #[verifier::when_used_as_spec(spec_is_truthy)]
    pub fn is_truthy(&self) -> (r: bool)
        ensures
            r == self.spec_is_truthy(),
    {
        match self {
            LuaValue::Nil => false,
            LuaValue::Boolean(b) => *b,
            _ => true,
        }
    }

    /// The handle that the value holds, if it refers to a heap object.
    pub fn heap_ref(&self) -> (r: Option<usize>)
        ensures
            r == spec_value_ref(*self),
    {
        match self {
            LuaValue::String(h) => Some(*h),
            LuaValue::Table(h) => Some(*h),
            LuaValue::Function(h) => Some(*h),
            _ => None,
        }
    }

    /// Whether the two are the same value; see [`spec_same_value`].
    pub fn same_value(&self, other: &LuaValue) -> (r: bool)
        ensures
            r == spec_same_value(*self, *other),
    {
        match (self, other) {
            (LuaValue::Nil, LuaValue::Nil) => true,
            (LuaValue::Number(x), LuaValue::Number(y)) => *x == *y,
            (LuaValue::Boolean(x), LuaValue::Boolean(y)) => *x == *y,
            (LuaValue::String(x), LuaValue::String(y)) => *x == *y,
            (LuaValue::Table(x), LuaValue::Table(y)) => *x == *y,
            (LuaValue::Function(x), LuaValue::Function(y)) => *x == *y,
            (LuaValue::CFunc(x), LuaValue::CFunc(y)) => *x == *y,
            (LuaValue::TempString(x), LuaValue::TempString(y)) => *x == *y,
            _ => false,
        }
    }

    /// The name of the value's type, as error messages show it.
    pub open spec fn spec_kind_name(&self) -> Seq<char> {
        match *self {
            LuaValue::Nil => "nil"@,
            LuaValue::Number(_) => "number"@,
            LuaValue::Boolean(_) => "boolean"@,
            LuaValue::String(_) => "string"@,
            LuaValue::Table(_) => "table"@,
            LuaValue::Function(_) => "function"@,
            LuaValue::CFunc(_) => "function"@,
            LuaValue::TempString(_) => "string"@,
        }
    }

    pub fn kind_name(&self) -> (r: String)
        ensures
            r@ == self.spec_kind_name(),
    {
        match self {
            LuaValue::Nil => String::from_str("nil"),
            LuaValue::Number(_) => String::from_str("number"),
            LuaValue::Boolean(_) => String::from_str("boolean"),
            LuaValue::String(_) => String::from_str("string"),
            LuaValue::Table(_) => String::from_str("table"),
            LuaValue::Function(_) => String::from_str("function"),
            LuaValue::CFunc(_) => String::from_str("function"),
            LuaValue::TempString(_) => String::from_str("string"),
        }
    }
}

impl LuaObject {
    /// The kind of the payload.
    pub fn kind(&self) -> (r: ObjectKind)
        ensures
            r == spec_object_kind(*self),
    {
        match self {
            LuaObject::String(_) => ObjectKind::String,
            LuaObject::Table(_) => ObjectKind::Table,
            LuaObject::Function(_) => ObjectKind::Function,
            LuaObject::UpValue(_) => ObjectKind::UpValue,
        }
    }

    /// Appends to `out` every handle that the payload holds.
    pub fn collect_refs(&self, out: &mut Vec<usize>)
        ensures
            final(out)@.len() >= old(out)@.len(),
            final(out)@.subrange(0, old(out)@.len() as int) == old(out)@,
            forall|h: usize|
                spec_object_refers(*self, h) <==> final(out)@.subrange(
                    old(out)@.len() as int,
                    final(out)@.len() as int,
                ).contains(h),
    {
        let ghost base = out@;
        match self {
            LuaObject::String(_) => {
                assert(out@.subrange(0, base.len() as int) =~= base);
            },
            LuaObject::Table(t) => {
                match t.metatable {
                    Some(m) => {
                        out.push(m);
                    },
                    None => {},
                }
                let ghost mid = out@.len();
                let mut i: usize = 0;
                while i < t.data.len()
                    invariant
                        i <= t.data.len(),
                        out@.len() >= mid >= base.len(),
                        mid == base.len() + (if t.metatable is Some { 1int } else { 0int }),
                        out@.subrange(0, base.len() as int) == base,
                        t.metatable matches Some(m) ==> out@[base.len() as int] == m,
                        forall|h: usize| #[trigger]
                            out@.subrange(mid as int, out@.len() as int).contains(h) <==> exists|
                                j: int,
                            |
                                0 <= j < i && (#[trigger] spec_value_ref(t.data[j].0) == Some(h)
                                    || spec_value_ref(t.data[j].1) == Some(h)),
                    decreases t.data.len() - i,
                {
                    let ghost before = out@;
                    match t.data[i].0.heap_ref() {
                        Some(k) => {
                            out.push(k);
                        },
                        None => {},
                    }
                    match t.data[i].1.heap_ref() {
                        Some(k) => {
                            out.push(k);
                        },
                        None => {},
                    }
                    proof {
                        let s0 = before.subrange(mid as int, before.len() as int);
                        let s1 = out@.subrange(mid as int, out@.len() as int);
                        assert(out@.subrange(0, base.len() as int) =~= base);
                        assert forall|h: usize| #[trigger]
                            s1.contains(h) <==> exists|j: int|
                                0 <= j < i + 1 && (#[trigger] spec_value_ref(t.data[j].0) == Some(h)
                                    || spec_value_ref(t.data[j].1) == Some(h)) by {
                            if s1.contains(h) {
                                let k = choose|k: int| 0 <= k < s1.len() && s1[k] == h;
                                if k < s0.len() {
                                    assert(s0[k] == h);
                                    assert(s0.contains(h));
                                } else {
                                    assert(spec_value_ref(t.data[i as int].0) == Some(h)
                                        || spec_value_ref(t.data[i as int].1) == Some(h));
                                }
                            }
                            if exists|j: int|
                                0 <= j < i + 1 && (#[trigger] spec_value_ref(t.data[j].0) == Some(h)
                                    || spec_value_ref(t.data[j].1) == Some(h)) {
                                let j = choose|j: int|
                                    0 <= j < i + 1 && (#[trigger] spec_value_ref(t.data[j].0)
                                        == Some(h) || spec_value_ref(t.data[j].1) == Some(h));
                                if j < i {
                                    assert(s0.contains(h));
                                    let k = choose|k: int| 0 <= k < s0.len() && s0[k] == h;
                                    assert(s1[k] == h);
                                } else {
                                    if spec_value_ref(t.data[i as int].0) == Some(h) {
                                        assert(s1[s0.len() as int] == h);
                                    } else {
                                        assert(s1[s1.len() - 1] == h);
                                    }
                                }
                            }
                        }
                    }
                    i += 1;
                }
                proof {
                    let all = out@.subrange(base.len() as int, out@.len() as int);
                    let tail = out@.subrange(mid as int, out@.len() as int);
                    assert forall|h: usize| spec_object_refers(*self, h) <==> all.contains(h) by {
                        if all.contains(h) {
                            let k = choose|k: int| 0 <= k < all.len() && all[k] == h;
                            if base.len() + k >= mid {
                                assert(tail[base.len() + k - mid] == h);
                                assert(tail.contains(h));
                            }
                        }
                        if spec_object_refers(*self, h) {
                            if t.metatable == Some(h) {
                                assert(all[0] == h);
                            } else {
                                assert(tail.contains(h));
                                let k = choose|k: int| 0 <= k < tail.len() && tail[k] == h;
                                assert(all[k + mid - base.len()] == h);
                            }
                        }
                    }
                }
            },
            LuaObject::Function(f) => {
                let mut i: usize = 0;
                while i < f.constants.len()
                    invariant
                        i <= f.constants.len(),
                        out@.len() >= base.len(),
                        out@.subrange(0, base.len() as int) == base,
                        forall|h: usize| #[trigger]
                            out@.subrange(base.len() as int, out@.len() as int).contains(h)
                                <==> exists|j: int|
                                0 <= j < i && #[trigger] spec_value_ref(f.constants[j]) == Some(h),
                    decreases f.constants.len() - i,
                {
                    let ghost before = out@;
                    match f.constants[i].heap_ref() {
                        Some(k) => {
                            out.push(k);
                        },
                        None => {},
                    }
                    proof {
                        let s0 = before.subrange(base.len() as int, before.len() as int);
                        let s1 = out@.subrange(base.len() as int, out@.len() as int);
                        assert(out@.subrange(0, base.len() as int) =~= base);
                        assert forall|h: usize| #[trigger]
                            s1.contains(h) <==> exists|j: int|
                                0 <= j < i + 1 && #[trigger] spec_value_ref(f.constants[j]) == Some(
                                    h,
                                ) by {
                            if s1.contains(h) {
                                let k = choose|k: int| 0 <= k < s1.len() && s1[k] == h;
                                if k < s0.len() {
                                    assert(s0[k] == h);
                                    assert(s0.contains(h));
                                } else {
                                    assert(spec_value_ref(f.constants[i as int]) == Some(h));
                                }
                            }
                            if exists|j: int|
                                0 <= j < i + 1 && #[trigger] spec_value_ref(f.constants[j]) == Some(
                                    h,
                                ) {
                                let j = choose|j: int|
                                    0 <= j < i + 1 && #[trigger] spec_value_ref(f.constants[j])
                                        == Some(h);
                                if j < i {
                                    assert(s0.contains(h));
                                    let k = choose|k: int| 0 <= k < s0.len() && s0[k] == h;
                                    assert(s1[k] == h);
                                } else {
                                    assert(s1[s1.len() - 1] == h);
                                }
                            }
                        }
                    }
                    i += 1;
                }
                let ghost mid = out@.len();
                let mut j: usize = 0;
                while j < f.upvalues.len()
                    invariant
                        j <= f.upvalues.len(),
                        out@.len() == mid + j,
                        mid >= base.len(),
                        out@.subrange(0, base.len() as int) == base,
                        forall|h: usize| #[trigger]
                            out@.subrange(base.len() as int, mid as int).contains(h) <==> exists|
                                k: int,
                            |
                                0 <= k < f.constants.len() && #[trigger] spec_value_ref(
                                    f.constants[k],
                                ) == Some(h),
                        forall|k: int| 0 <= k < j ==> out@[mid + k] == f.upvalues[k],
                    decreases f.upvalues.len() - j,
                {
                    let ghost before = out@;
                    out.push(f.upvalues[j]);
                    proof {
                        assert(out@.subrange(0, base.len() as int) =~= base);
                        assert(out@.subrange(base.len() as int, mid as int) =~= before.subrange(
                            base.len() as int,
                            mid as int,
                        ));
                    }
                    j += 1;
                }
                proof {
                    let all = out@.subrange(base.len() as int, out@.len() as int);
                    let head = out@.subrange(base.len() as int, mid as int);
                    assert forall|h: usize| spec_object_refers(*self, h) <==> all.contains(h) by {
                        if all.contains(h) {
                            let k = choose|k: int| 0 <= k < all.len() && all[k] == h;
                            if base.len() + k < mid {
                                assert(head[k] == h);
                                assert(head.contains(h));
                            } else {
                                assert(f.upvalues[base.len() + k - mid] == h);
                            }
                        }
                        if spec_object_refers(*self, h) {
                            if exists|i: int|
                                0 <= i < f.constants.len() && #[trigger] spec_value_ref(
                                    f.constants[i],
                                ) == Some(h) {
                                assert(head.contains(h));
                                let k = choose|k: int| 0 <= k < head.len() && head[k] == h;
                                assert(all[k] == h);
                            } else {
                                let i = choose|i: int|
                                    0 <= i < f.upvalues.len() && #[trigger] f.upvalues[i] == h;
                                assert(all[mid - base.len() + i] == h);
                            }
                        }
                    }
                }
            },
            LuaObject::UpValue(u) => {
                match &u.value {
                    LuaUpValueState::Open(_) => {
                        assert(out@.subrange(0, base.len() as int) =~= base);
                    },
                    LuaUpValueState::Closed(v) => {
                        match v.heap_ref() {
                            Some(k) => {
                                out.push(k);
                                assert(out@.subrange(0, base.len() as int) =~= base);
                                assert(out@.subrange(base.len() as int, out@.len() as int)[0] == k);
                            },
                            None => {
                                assert(out@.subrange(0, base.len() as int) =~= base);
                            },
                        }
                    },
                }
            },
        }
    }
}

} // verus!
