//! Arithmetic, the unary operators, `and`, `or` and concatenation.

use vstd::prelude::*;
use vstd::utf8::encode_utf8;
use crate::backend::vm::error::{ErrorKind, VMError};
use crate::backend::vm::heap::{
    spec_open_at, spec_string_at, spec_string_size, spec_table_at, HARD_MEMORY_LIMIT,
};
use crate::backend::vm::{ArithOp, Pending, PendingView, VirtualMachine};
use crate::common::number::{from_usize, is_zero, negate, spec_from_count};
use crate::common::object::LuaValue;
use crate::common::opcode::UnaryOpType;

verus! {

/// The text of the error for a binary operator on operands that are not
/// both numbers.
pub open spec fn spec_binary_mismatch(op_name: Seq<char>, a: LuaValue, b: LuaValue) -> Seq<char> {
    "TypeMismatchException: binary operator '"@ + op_name + "' is not defined for types '"@
        + a.spec_kind_name() + "' and '"@ + b.spec_kind_name() + "'"@
}

/// The text of the error for a unary operator on an operand of the wrong
/// type.
pub open spec fn spec_unary_mismatch(op: UnaryOpType, v: LuaValue) -> Seq<char> {
    (match op {
        UnaryOpType::Len => "TypeMismatchException: operation '#' (len) is not defined for type '"@,
        _ => "TypeMismatchException: operator '-' is not defined for type '"@,
    }) + v.spec_kind_name() + "'"@
}

/// What a unary operator gives.
pub enum UnaryResult {
    Value(LuaValue),
    /// The operand has the wrong type.
    Mismatch,
    /// The operand refers to no object of its kind.
    Dangling,
}

/// What a unary operator gives for a value: the number with its sign
/// flipped; whether the value counts as false; the number of bytes of a
/// string or of entries of a table.
pub open spec fn spec_unary(
    objs: crate::backend::vm::heap::Slots,
    op: UnaryOpType,
    v: LuaValue,
) -> UnaryResult {
    match op {
        UnaryOpType::Neg => match v {
            LuaValue::Number(n) => UnaryResult::Value(LuaValue::Number(negate(n))),
            _ => UnaryResult::Mismatch,
        },
        UnaryOpType::Not => UnaryResult::Value(LuaValue::Boolean(!v.is_truthy())),
        UnaryOpType::Len => match v {
            LuaValue::String(h) => match spec_string_at(objs, h) {
                Some(s) => UnaryResult::Value(
                    LuaValue::Number(spec_from_count(encode_utf8(s).len())),
                ),
                None => UnaryResult::Dangling,
            },
            LuaValue::Table(h) => match spec_table_at(objs, h) {
                Some(t) => UnaryResult::Value(LuaValue::Number(spec_from_count(t.len()))),
                None => UnaryResult::Dangling,
            },
            _ => UnaryResult::Mismatch,
        },
    }
}

/// What an operand of a concatenation is.
pub enum TextOf {
    /// A string, with its text.
    Text(Seq<char>),
    /// A number, whose text the host renders.
    Number(u64),
    /// A value that cannot be concatenated.
    Mismatch,
    /// A string value that refers to no string object.
    Dangling,
}

/// What an operand of a concatenation is.
pub open spec fn spec_text_of(objs: crate::backend::vm::heap::Slots, v: LuaValue) -> TextOf {
    match v {
        LuaValue::String(h) => match spec_string_at(objs, h) {
            Some(s) => TextOf::Text(s),
            None => TextOf::Dangling,
        },
        LuaValue::Number(n) => TextOf::Number(n),
        _ => TextOf::Mismatch,
    }
}

/// The text of the error for a value that cannot be concatenated.
pub open spec fn spec_concat_mismatch(v: LuaValue) -> Seq<char> {
    match v {
        LuaValue::Nil => "NullPointerException: illegal concatenation of a nil value"@,
        LuaValue::Boolean(_) =>
            "TypeMismatchException: boolean type does not support implicit string conversion for concatenation"@,
        _ => "IncompatibleTypesException: cannot perform string concatenation on type '"@
            + v.spec_kind_name() + "'"@,
    }
}

impl VirtualMachine {
    /// Whether the machine is `old` with the program counter one further
    /// and the given request pending.
    pub open spec fn requested(&self, old: &VirtualMachine, pending: PendingView) -> bool {
        &&& self.same_context(old)
        &&& self.top().pc == old.top().pc + 1
        &&& self.value_stack == old.value_stack
        &&& self.heap == old.heap
        &&& self.pending@ == pending
    }

    /// The numbers in two registers, if both hold numbers.
    pub open spec fn spec_numbers(&self, left: int, right: int) -> Option<(u64, u64)> {
        match (self.reg(left), self.reg(right)) {
            (LuaValue::Number(a), LuaValue::Number(b)) => Some((a, b)),
            _ => None,
        }
    }

    /// The name of an operation in the text of an error.
    pub open spec fn spec_op_name(op: ArithOp) -> Seq<char> {
        match op {
            ArithOp::Add => "addition"@,
            ArithOp::Sub => "subtraction"@,
            ArithOp::Mul => "multiplication"@,
            ArithOp::Div => "division"@,
            ArithOp::Mod => "modulo"@,
            ArithOp::Pow => "exponentiation"@,
        }
    }

    /// The text of the error for a divisor that is zero.
    pub open spec fn spec_zero_text(op: ArithOp) -> Seq<char> {
        match op {
            ArithOp::Mod => "ArithmeticException: modulo by zero"@,
            _ => "ArithmeticException: division by zero"@,
        }
    }

    /// What an arithmetic instruction does to machine `old`: with numbers
    /// in both registers it leaves the request for the host pending; with
    /// anything else it fails with a `TypeError`; with a register out of
    /// range, with an `InternalError`.
    pub open spec fn arith_outcome(
        &self,
        old: &VirtualMachine,
        r: Result<(), VMError>,
        dest: u16,
        left: u16,
        right: u16,
        op: ArithOp,
    ) -> bool {
        let in_range = old.has_reg(left as int) && old.has_reg(right as int) && old.has_reg(
            dest as int,
        );
        let numbers = old.spec_numbers(left as int, right as int)->Some_0;
        match r {
            Ok(()) => {
                &&& in_range
                &&& old.spec_numbers(left as int, right as int) is Some
                &&& self.requested(
                    old,
                    PendingView::Arith { op, left: numbers.0, right: numbers.1, dest },
                )
            },
            Err(e) => {
                &&& self.failed(old, e)
                &&& if in_range {
                    old.spec_numbers(left as int, right as int) is None && e.kind is TypeError
                        && e.kind->TypeError_0@ == spec_binary_mismatch(
                        Self::spec_op_name(op),
                        old.reg(left as int),
                        old.reg(right as int),
                    )
                } else {
                    e.kind is InternalError
                }
            },
        }
    }

    /// What a division does to machine `old`: with a number that is zero
    /// as the divisor it fails with an `ArithmeticError`; else it does what
    /// any arithmetic instruction does.
    pub open spec fn division_outcome(
        &self,
        old: &VirtualMachine,
        r: Result<(), VMError>,
        dest: u16,
        left: u16,
        right: u16,
        op: ArithOp,
    ) -> bool {
        if old.zero_divisor(right as int) {
            r is Err && self.failed(old, r->Err_0) && r->Err_0.kind is ArithmeticError
                && r->Err_0.kind->ArithmeticError_0@ == Self::spec_zero_text(op)
        } else {
            self.arith_outcome(old, r, dest, left, right, op)
        }
    }

    /// What a unary instruction does to machine `old`.
    pub open spec fn unary_outcome(
        &self,
        old: &VirtualMachine,
        r: Result<(), VMError>,
        dest: u16,
        src: u16,
        op: UnaryOpType,
    ) -> bool {
        let res = spec_unary(old.heap.all_objects@, op, old.reg(src as int));
        match r {
            Ok(()) => {
                &&& old.has_reg(src as int)
                &&& old.has_reg(dest as int)
                &&& res is Value
                &&& self.stored(old, dest as int, res->Value_0)
            },
            Err(e) => {
                &&& self.failed(old, e)
                &&& if old.has_reg(src as int) {
                    match res {
                        UnaryResult::Value(_) => !old.has_reg(dest as int)
                            && e.kind is InternalError,
                        UnaryResult::Mismatch => e.kind is TypeError && e.kind->TypeError_0@
                            == spec_unary_mismatch(op, old.reg(src as int)),
                        UnaryResult::Dangling => e.kind is InternalError,
                    }
                } else {
                    e.kind is InternalError
                }
            },
        }
    }

    /// What `Concat` does to machine `old`: with two strings, register
    /// `dest` gets the string of both texts; with a number among the
    /// operands, the request for its text is left pending, the left operand
    /// first; any other operand is a `TypeError`, the left one first.
    pub open spec fn concat_outcome(
        &self,
        old: &VirtualMachine,
        r: Result<(), VMError>,
        dest: u16,
        left: u16,
        right: u16,
    ) -> bool {
        let in_range = old.has_reg(left as int) && old.has_reg(right as int) && old.has_reg(
            dest as int,
        );
        let a = spec_text_of(old.heap.all_objects@, old.reg(left as int));
        let b = spec_text_of(old.heap.all_objects@, old.reg(right as int));
        match r {
            Ok(()) => in_range && match (a, b) {
                (TextOf::Text(x), TextOf::Text(y)) => self.concatenated(old, dest as int, x + y, 1),
                (TextOf::Number(bits), TextOf::Text(_)) => self.requested(
                    old,
                    PendingView::ConcatLeft { bits, right: old.reg(right as int), dest },
                ),
                (TextOf::Number(bits), TextOf::Number(_)) => self.requested(
                    old,
                    PendingView::ConcatLeft { bits, right: old.reg(right as int), dest },
                ),
                (TextOf::Text(x), TextOf::Number(bits)) => self.requested(
                    old,
                    PendingView::ConcatRight { left: x, bits, dest },
                ),
                _ => false,
            },
            Err(e) => self.failed(old, e) && if !in_range {
                e.kind is InternalError
            } else {
                match (a, b) {
                    (TextOf::Mismatch, _) => e.kind is TypeError && e.kind->TypeError_0@
                        == spec_concat_mismatch(old.reg(left as int)),
                    (TextOf::Dangling, _) => e.kind is InternalError,
                    (_, TextOf::Mismatch) => e.kind is TypeError && e.kind->TypeError_0@
                        == spec_concat_mismatch(old.reg(right as int)),
                    (_, TextOf::Dangling) => e.kind is InternalError,
                    (TextOf::Text(x), TextOf::Text(y)) => e.kind is OutOfMemory
                        && old.heap.interned(x + y) is None && old.heap.total_allocated
                        + spec_string_size(x + y) > HARD_MEMORY_LIMIT,
                    _ => false,
                }
            },
        }
    }

    fn request(&mut self, pending: Pending)
        requires
            old(self).running(),
        ensures
            final(self).wf(),
            final(self).requested(old(self), pending@),
    {
        self.pending = pending;
        let n = self.call_stack.len();
        self.call_stack[n - 1].pc = self.call_stack[n - 1].pc + 1;
        proof {
            self.lemma_same_frames(old(self));
        }
    }

    /// The name of an operation in the text of an error.
    pub fn op_name(op: ArithOp) -> (r: &'static str)
        ensures
            r@ == Self::spec_op_name(op),
    {
        match op {
            ArithOp::Add => "addition",
            ArithOp::Sub => "subtraction",
            ArithOp::Mul => "multiplication",
            ArithOp::Div => "division",
            ArithOp::Mod => "modulo",
            ArithOp::Pow => "exponentiation",
        }
    }

    /// An operation on the numbers in two registers: the machine stops
    /// with the request for the host to compute it. Operands that are not
    /// both numbers are a `TypeError`.
    pub fn handle_binary_op(&mut self, dest: u16, left: u16, right: u16, op: ArithOp) -> (r:
        Result<(), VMError>)
        requires
            old(self).running(),
        ensures
            final(self).wf(),
            final(self).arith_outcome(old(self), r, dest, left, right, op),
    {
        let v1 = self.get_reg(left as usize)?;
        let v2 = self.get_reg(right as usize)?;
        let n = self.call_stack.len();
        if dest as usize >= self.call_stack[n - 1].reg_count {
            return Err(self.internal("register out of range"));
        }
        match (&v1, &v2) {
            (LuaValue::Number(a), LuaValue::Number(b)) => {
                self.request(Pending::Arith { op, left: *a, right: *b, dest });
                Ok(())
            },
            _ => {
                let t1 = v1.kind_name();
                let t2 = v2.kind_name();
                let mut msg = String::from_str("TypeMismatchException: binary operator '");
                msg.append(Self::op_name(op));
                msg.append("' is not defined for types '");
                msg.append(t1.as_str());
                msg.append("' and '");
                msg.append(t2.as_str());
                msg.append("'");
                Err(self.error(ErrorKind::TypeError(msg)))
            },
        }
    }

    /// `Add`: asks for the sum of two registers.
    pub fn handle_add(&mut self, dest: u16, left: u16, right: u16) -> (r: Result<(), VMError>)
        requires
            old(self).running(),
        ensures
            final(self).wf(),
            final(self).arith_outcome(old(self), r, dest, left, right, ArithOp::Add),
    {
        self.handle_binary_op(dest, left, right, ArithOp::Add)
    }

    /// `Sub`: asks for the difference of two registers.
    pub fn handle_sub(&mut self, dest: u16, left: u16, right: u16) -> (r: Result<(), VMError>)
        requires
            old(self).running(),
        ensures
            final(self).wf(),
            final(self).arith_outcome(old(self), r, dest, left, right, ArithOp::Sub),
    {
        self.handle_binary_op(dest, left, right, ArithOp::Sub)
    }

    /// `Mul`: asks for the product of two registers.
    pub fn handle_mul(&mut self, dest: u16, left: u16, right: u16) -> (r: Result<(), VMError>)
        requires
            old(self).running(),
        ensures
            final(self).wf(),
            final(self).arith_outcome(old(self), r, dest, left, right, ArithOp::Mul),
    {
        self.handle_binary_op(dest, left, right, ArithOp::Mul)
    }

    /// `Pow`: asks for the power of two registers.
    pub fn handle_pow(&mut self, dest: u16, left: u16, right: u16) -> (r: Result<(), VMError>)
        requires
            old(self).running(),
        ensures
            final(self).wf(),
            final(self).arith_outcome(old(self), r, dest, left, right, ArithOp::Pow),
    {
        self.handle_binary_op(dest, left, right, ArithOp::Pow)
    }

    /// Whether the right operand is a number that is zero.
    pub open spec fn zero_divisor(&self, right: int) -> bool {
        self.has_reg(right) && match self.reg(right) {
            LuaValue::Number(b) => is_zero(b),
            _ => false,
        }
    }

    fn divide(&mut self, dest: u16, left: u16, right: u16, op: ArithOp) -> (r: Result<(), VMError>)
        requires
            old(self).running(),
        ensures
            final(self).wf(),
            final(self).division_outcome(old(self), r, dest, left, right, op),
    {
        let v2 = self.get_reg(right as usize)?;
        match v2 {
            LuaValue::Number(b) => {
                if is_zero(b) {
                    let text = match op {
                        ArithOp::Mod => "ArithmeticException: modulo by zero",
                        _ => "ArithmeticException: division by zero",
                    };
                    return Err(self.error(ErrorKind::ArithmeticError(String::from_str(text))));
                }
            },
            _ => {},
        }
        self.handle_binary_op(dest, left, right, op)
    }

    /// `Div`: asks for the quotient of two registers. A divisor that is
    /// zero is an `ArithmeticError`, whatever the dividend is.
    pub fn handle_div(&mut self, dest: u16, left: u16, right: u16) -> (r: Result<(), VMError>)
        requires
            old(self).running(),
        ensures
            final(self).wf(),
            final(self).division_outcome(old(self), r, dest, left, right, ArithOp::Div),
    {
        self.divide(dest, left, right, ArithOp::Div)
    }

    /// `Mod`: asks for the remainder of two registers. A divisor that is
    /// zero is an `ArithmeticError`, whatever the dividend is.
    pub fn handle_mod(&mut self, dest: u16, left: u16, right: u16) -> (r: Result<(), VMError>)
        requires
            old(self).running(),
        ensures
            final(self).wf(),
            final(self).division_outcome(old(self), r, dest, left, right, ArithOp::Mod),
    {
        self.divide(dest, left, right, ArithOp::Mod)
    }

    /// `UnOp`: register `dest` gets what the operator gives for register
    /// `src`; see [`spec_unary`].
    pub fn handle_unary_op(&mut self, dest: u16, src: u16, op: UnaryOpType) -> (r: Result<
        (),
        VMError,
    >)
        requires
            old(self).running(),
        ensures
            final(self).wf(),
            final(self).unary_outcome(old(self), r, dest, src, op),
    {
        let val = self.get_reg(src as usize)?;
        let res = match op {
            UnaryOpType::Neg => match val {
                LuaValue::Number(n) => LuaValue::Number(negate(n)),
                _ => {
                    let t = val.kind_name();
                    let mut msg = String::from_str(
                        "TypeMismatchException: operator '-' is not defined for type '",
                    );
                    msg.append(t.as_str());
                    msg.append("'");
                    return Err(self.error(ErrorKind::TypeError(msg)));
                },
            },
            UnaryOpType::Not => LuaValue::Boolean(!val.is_truthy()),
            UnaryOpType::Len => match val {
                LuaValue::String(h) => match self.heap.string_len(h) {
                    Some(n) => LuaValue::Number(from_usize(n)),
                    None => {
                        return Err(self.internal("string value refers to no string"));
                    },
                },
                LuaValue::Table(h) => match self.heap.table_len(h) {
                    Some(n) => LuaValue::Number(from_usize(n)),
                    None => {
                        return Err(self.internal("table value refers to no table"));
                    },
                },
                _ => {
                    let t = val.kind_name();
                    let mut msg = String::from_str(
                        "TypeMismatchException: operation '#' (len) is not defined for type '",
                    );
                    msg.append(t.as_str());
                    msg.append("'");
                    return Err(self.error(ErrorKind::TypeError(msg)));
                },
            },
        };
        self.store(dest, res)
    }

    /// `And`: register `dest` gets the left operand if it counts as false,
    /// else the right one. Both operands have been evaluated.
    pub fn handle_and(&mut self, dest: u16, left: u16, right: u16) -> (r: Result<(), VMError>)
        requires
            old(self).running(),
        ensures
            final(self).wf(),
            final(self).stored_or_internal(
                old(self),
                r,
                old(self).has_reg(left as int) && old(self).has_reg(right as int),
                dest,
                if !old(self).reg(left as int).is_truthy() {
                    old(self).reg(left as int)
                } else {
                    old(self).reg(right as int)
                },
            ),
    {
        let v1 = self.get_reg(left as usize)?;
        let v2 = self.get_reg(right as usize)?;
        let res = if !v1.is_truthy() {
            v1
        } else {
            v2
        };
        self.store(dest, res)
    }

    /// `Or`: register `dest` gets the left operand if it counts as true,
    /// else the right one. Both operands have been evaluated.
    pub fn handle_or(&mut self, dest: u16, left: u16, right: u16) -> (r: Result<(), VMError>)
        requires
            old(self).running(),
        ensures
            final(self).wf(),
            final(self).stored_or_internal(
                old(self),
                r,
                old(self).has_reg(left as int) && old(self).has_reg(right as int),
                dest,
                if old(self).reg(left as int).is_truthy() {
                    old(self).reg(left as int)
                } else {
                    old(self).reg(right as int)
                },
            ),
    {
        let v1 = self.get_reg(left as usize)?;
        let v2 = self.get_reg(right as usize)?;
        let res = if v1.is_truthy() {
            v1
        } else {
            v2
        };
        self.store(dest, res)
    }

    /// The text of an operand of a concatenation: `Some` for a string,
    /// `None` for a number, whose text the host renders. Any other value is a
    /// `TypeError`.
    pub fn value_to_string(&self, val: &LuaValue) -> (r: Result<Option<String>, VMError>)
        ensures
            match r {
                Ok(Some(s)) => spec_text_of(self.heap.all_objects@, *val) == TextOf::Text(s@),
                Ok(None) => spec_text_of(self.heap.all_objects@, *val) is Number,
                Err(e) => self.locates(e) && match spec_text_of(self.heap.all_objects@, *val) {
                    TextOf::Mismatch => e.kind is TypeError && e.kind->TypeError_0@
                        == spec_concat_mismatch(*val),
                    TextOf::Dangling => e.kind is InternalError,
                    _ => false,
                },
            },
    {
        match val {
            LuaValue::String(h) => match self.heap.string_of(*h) {
                Some(s) => Ok(Some(s)),
                None => Err(self.internal("string value refers to no string")),
            },
            LuaValue::Number(_) => Ok(None),
            LuaValue::Nil => Err(
                self.error(
                    ErrorKind::TypeError(
                        String::from_str(
                            "NullPointerException: illegal concatenation of a nil value",
                        ),
                    ),
                ),
            ),
            LuaValue::Boolean(_) => Err(
                self.error(
                    ErrorKind::TypeError(
                        String::from_str(
                            "TypeMismatchException: boolean type does not support implicit string conversion for concatenation",
                        ),
                    ),
                ),
            ),
            _ => {
                let t = val.kind_name();
                let mut msg = String::from_str(
                    "IncompatibleTypesException: cannot perform string concatenation on type '",
                );
                msg.append(t.as_str());
                msg.append("'");
                Err(self.error(ErrorKind::TypeError(msg)))
            },
        }
    }

    /// The handle under which the text is or will be interned.
    pub open spec fn spec_intern_handle(&self, text: Seq<char>) -> usize {
        match self.heap.interned(text) {
            Some(x) => x,
            None => self.heap.all_objects@.len() as usize,
        }
    }

    /// Whether the machine is `old` after the text was interned, register
    /// `dest` got the string, the pending request was settled and the program
    /// counter went `step` further.
    pub open spec fn concatenated(
        &self,
        old: &VirtualMachine,
        dest: int,
        text: Seq<char>,
        step: int,
    ) -> bool {
        &&& self.same_context(old)
        &&& self.top().pc == old.top().pc + step
        &&& self.pending is Idle
        &&& self.heap.interned_into(&old.heap, text, old.spec_intern_handle(text))
        &&& self.value_stack.values@ == old.value_stack.values@.update(
            old.top().base_offset + dest,
            LuaValue::String(old.spec_intern_handle(text)),
        )
    }

    /// Interns the text and gives register `dest` the string; nothing is
    /// pending afterwards. Where the string does not fit the heap, an
    /// `OutOfMemory` error.
    pub fn finish_concat(&mut self, dest: u16, combined: String) -> (r: Result<(), VMError>)
        requires
            old(self).wf(),
            old(self).call_stack@.len() > 0,
        ensures
            final(self).wf(),
            match r {
                Ok(()) => old(self).has_reg(dest as int) && final(self).concatenated(
                    old(self),
                    dest as int,
                    combined@,
                    0,
                ),
                Err(e) => old(self).locates(e) && *final(self) == *old(self) && if !old(self).has_reg(dest as int) {
                    e.kind is InternalError
                } else {
                    e.kind is OutOfMemory && old(self).heap.interned(combined@) is None && old(self).heap.total_allocated + spec_string_size(combined@) > HARD_MEMORY_LIMIT
                },
            },
    {
        let n = self.call_stack.len();
        if dest as usize >= self.call_stack[n - 1].reg_count {
            return Err(self.internal("register out of range"));
        }
        match self.heap.alloc_string(combined) {
            Some(h) => {
                proof {
                    assert forall|x: usize|
                        (#[trigger] spec_open_at(self.heap.all_objects@, x)) is Some implies spec_open_at(
                        old(self).heap.all_objects@,
                        x,
                    ) == spec_open_at(self.heap.all_objects@, x) by {
                        if (x as int) < old(self).heap.all_objects@.len() {
                            assert(self.heap.all_objects@.subrange(
                                0,
                                old(self).heap.all_objects@.len() as int,
                            )[x as int] == self.heap.all_objects@[x as int]);
                        }
                    }
                    self.lemma_heap_change(old(self));
                }
                let ghost mid = *self;
                self.call_stack[n - 1].set_reg(dest as usize, LuaValue::String(h), &mut self.value_stack);
                self.pending = Pending::Idle;
                proof {
                    self.lemma_same_frames(&mid);
                }
                Ok(())
            },
            None => Err(self.error(ErrorKind::OutOfMemory)),
        }
    }

    /// `Concat`: register `dest` gets the string made of the texts of the
    /// two operands. Where both are strings the instruction is done at once;
    /// where one is a number, the machine stops with the request for its text.
    /// Any other operand is a `TypeError`, the left one first.
    pub fn handle_concat(&mut self, dest: u16, left: u16, right: u16) -> (r: Result<(), VMError>)
        requires
            old(self).running(),
        ensures
            final(self).wf(),
            final(self).concat_outcome(old(self), r, dest, left, right),
    {
        let v1 = self.get_reg(left as usize)?;
        let v2 = self.get_reg(right as usize)?;
        let n = self.call_stack.len();
        if dest as usize >= self.call_stack[n - 1].reg_count {
            return Err(self.internal("register out of range"));
        }
        let s1 = self.value_to_string(&v1)?;
        let s2 = self.value_to_string(&v2)?;
        match (s1, s2) {
            (Some(a), Some(b)) => {
                let mut combined = a;
                combined.append(b.as_str());
                self.finish_concat(dest, combined)?;
                self.advance_pc();
                Ok(())
            },
            (None, _) => {
                match v1 {
                    LuaValue::Number(bits) => {
                        self.request(Pending::ConcatLeft { bits, right: v2, dest });
                        Ok(())
                    },
                    _ => Err(self.internal("operand is no number")),
                }
            },
            (Some(a), None) => {
                match v2 {
                    LuaValue::Number(bits) => {
                        self.request(Pending::ConcatRight { left: a, bits, dest });
                        Ok(())
                    },
                    _ => Err(self.internal("operand is no number")),
                }
            },
        }
    }
}

} // verus!
