//! Comparisons and the test that branches hang on.

use vstd::prelude::*;
use crate::backend::vm::error::{ErrorKind, VMError};
use crate::backend::vm::heap::{spec_string_at, Slots};
use crate::backend::vm::VirtualMachine;
use crate::common::number::{num_eq, num_le, num_lt};
use crate::common::object::{spec_same_value, LuaValue};
use crate::common::text::{spec_text_le, spec_text_lt, text_le, text_lt};

verus! {

/// What an ordering comparison gives.
pub enum Compared {
    Is(bool),
    /// The operands are neither two numbers nor two strings.
    Mismatch,
    /// A string operand refers to no string object.
    Dangling,
}

/// Whether two values are equal: two numbers as numbers, so that the two
/// zeros are equal and a NaN equals nothing; any other two if they are the
/// same value.
pub open spec fn spec_lua_equal(a: LuaValue, b: LuaValue) -> bool {
    match (a, b) {
        (LuaValue::Number(x), LuaValue::Number(y)) => num_eq(x, y),
        _ => spec_same_value(a, b),
    }
}

/// Whether `a` is less than `b`: two numbers as numbers, two strings in the
/// order of their bytes.
pub open spec fn spec_less(objs: Slots, a: LuaValue, b: LuaValue) -> Compared {
    match (a, b) {
        (LuaValue::Number(x), LuaValue::Number(y)) => Compared::Is(num_lt(x, y)),
        (LuaValue::String(h1), LuaValue::String(h2)) => match (
            spec_string_at(objs, h1),
            spec_string_at(objs, h2),
        ) {
            (Some(s1), Some(s2)) => Compared::Is(spec_text_lt(s1, s2)),
            _ => Compared::Dangling,
        },
        _ => Compared::Mismatch,
    }
}

/// Whether `a` is less than or equal to `b`.
pub open spec fn spec_less_equal(objs: Slots, a: LuaValue, b: LuaValue) -> Compared {
    match (a, b) {
        (LuaValue::Number(x), LuaValue::Number(y)) => Compared::Is(num_le(x, y)),
        (LuaValue::String(h1), LuaValue::String(h2)) => match (
            spec_string_at(objs, h1),
            spec_string_at(objs, h2),
        ) {
            (Some(s1), Some(s2)) => Compared::Is(spec_text_le(s1, s2)),
            _ => Compared::Dangling,
        },
        _ => Compared::Mismatch,
    }
}

/// The text of the error for an ordering comparison of operands that are
/// neither two numbers nor two strings.
pub open spec fn spec_relational_mismatch(op: Seq<char>, a: LuaValue, b: LuaValue) -> Seq<char> {
    "TypeMismatchException: relational operator '"@ + op + "' is not defined between '"@
        + a.spec_kind_name() + "' and '"@ + b.spec_kind_name() + "'"@
}

/// Whether two values are equal; see [`spec_lua_equal`].
pub fn lua_equal(a: &LuaValue, b: &LuaValue) -> (r: bool)
    ensures
        r == spec_lua_equal(*a, *b),
{
    match (a, b) {
        (LuaValue::Number(x), LuaValue::Number(y)) => num_eq(*x, *y),
        _ => a.same_value(b),
    }
}

impl VirtualMachine {
    /// Whether `a` is less than `b`; see [`spec_less`].
    pub fn less(&self, a: &LuaValue, b: &LuaValue) -> (r: Compared)
        ensures
            r == spec_less(self.heap.all_objects@, *a, *b),
    {
        match (a, b) {
            (LuaValue::Number(x), LuaValue::Number(y)) => Compared::Is(num_lt(*x, *y)),
            (LuaValue::String(h1), LuaValue::String(h2)) => {
                match (self.heap.string_of(*h1), self.heap.string_of(*h2)) {
                    (Some(s1), Some(s2)) => Compared::Is(text_lt(s1.as_str(), s2.as_str())),
                    _ => Compared::Dangling,
                }
            },
            _ => Compared::Mismatch,
        }
    }

    /// Whether `a` is less than or equal to `b`; see [`spec_less_equal`].
    pub fn less_equal(&self, a: &LuaValue, b: &LuaValue) -> (r: Compared)
        ensures
            r == spec_less_equal(self.heap.all_objects@, *a, *b),
    {
        match (a, b) {
            (LuaValue::Number(x), LuaValue::Number(y)) => Compared::Is(num_le(*x, *y)),
            (LuaValue::String(h1), LuaValue::String(h2)) => {
                match (self.heap.string_of(*h1), self.heap.string_of(*h2)) {
                    (Some(s1), Some(s2)) => Compared::Is(text_le(s1.as_str(), s2.as_str())),
                    _ => Compared::Dangling,
                }
            },
            _ => Compared::Mismatch,
        }
    }

    /// What a comparison that cannot fail on its operands does to machine
    /// `old`: register `dest` gets the boolean.
    pub open spec fn compare_outcome(
        &self,
        old: &VirtualMachine,
        r: Result<(), VMError>,
        dest: u16,
        left: u16,
        right: u16,
        value: bool,
    ) -> bool {
        let in_range = old.has_reg(left as int) && old.has_reg(right as int) && old.has_reg(
            dest as int,
        );
        match r {
            Ok(()) => in_range && self.stored(old, dest as int, LuaValue::Boolean(value)),
            Err(e) => !in_range && e.kind is InternalError && self.failed(old, e),
        }
    }

    /// What an ordering comparison does to machine `old`: register `dest`
    /// gets the boolean; operands that are neither two numbers nor two
    /// strings are a `TypeError`.
    pub open spec fn order_outcome(
        &self,
        old: &VirtualMachine,
        r: Result<(), VMError>,
        dest: u16,
        left: u16,
        right: u16,
        compared: Compared,
        op: Seq<char>,
    ) -> bool {
        let in_range = old.has_reg(left as int) && old.has_reg(right as int);
        match r {
            Ok(()) => {
                &&& in_range
                &&& old.has_reg(dest as int)
                &&& compared is Is
                &&& self.stored(old, dest as int, LuaValue::Boolean(compared->Is_0))
            },
            Err(e) => {
                &&& self.failed(old, e)
                &&& if in_range {
                    match compared {
                        Compared::Is(_) => !old.has_reg(dest as int) && e.kind is InternalError,
                        Compared::Mismatch => e.kind is TypeError && e.kind->TypeError_0@
                            == spec_relational_mismatch(
                            op,
                            old.reg(left as int),
                            old.reg(right as int),
                        ),
                        Compared::Dangling => e.kind is InternalError,
                    }
                } else {
                    e.kind is InternalError
                }
            },
        }
    }

    /// Register `dest` gets whether the comparison holds of the values of
    /// the two registers.
    pub fn handle_compare(&mut self, dest: u16, left: u16, right: u16, negate: bool) -> (r: Result<
        (),
        VMError,
    >)
        requires
            old(self).running(),
        ensures
            final(self).wf(),
            final(self).compare_outcome(
                old(self),
                r,
                dest,
                left,
                right,
                spec_lua_equal(old(self).reg(left as int), old(self).reg(right as int)) != negate,
            ),
    {
        let v1 = self.get_reg(left as usize)?;
        let v2 = self.get_reg(right as usize)?;
        let res = lua_equal(&v1, &v2) != negate;
        self.store(dest, LuaValue::Boolean(res))
    }

    /// `Eq`: register `dest` gets whether the two registers are equal.
    pub fn handle_eq(&mut self, dest: u16, left: u16, right: u16) -> (r: Result<(), VMError>)
        requires
            old(self).running(),
        ensures
            final(self).wf(),
            final(self).compare_outcome(
                old(self),
                r,
                dest,
                left,
                right,
                spec_lua_equal(old(self).reg(left as int), old(self).reg(right as int)),
            ),
    {
        self.handle_compare(dest, left, right, false)
    }

    /// `Ne`: register `dest` gets whether the two registers differ.
    pub fn handle_ne(&mut self, dest: u16, left: u16, right: u16) -> (r: Result<(), VMError>)
        requires
            old(self).running(),
        ensures
            final(self).wf(),
            final(self).compare_outcome(
                old(self),
                r,
                dest,
                left,
                right,
                !spec_lua_equal(old(self).reg(left as int), old(self).reg(right as int)),
            ),
    {
        self.handle_compare(dest, left, right, true)
    }

    fn order(&mut self, dest: u16, a: &LuaValue, b: &LuaValue, compared: Compared, op: &str) -> (r:
        Result<(), VMError>)
        requires
            old(self).running(),
        ensures
            final(self).wf(),
            match r {
                Ok(()) => old(self).has_reg(dest as int) && compared is Is && final(self).stored(
                    old(self),
                    dest as int,
                    LuaValue::Boolean(compared->Is_0),
                ),
                Err(e) => old(self).locates(e) && *final(self) == *old(self) && match compared {
                    Compared::Is(_) => !old(self).has_reg(dest as int) && e.kind is InternalError,
                    Compared::Mismatch => e.kind is TypeError && e.kind->TypeError_0@
                        == spec_relational_mismatch(op@, *a, *b),
                    Compared::Dangling => e.kind is InternalError,
                },
            },
    {
        match compared {
            Compared::Is(x) => self.store(dest, LuaValue::Boolean(x)),
            Compared::Mismatch => {
                let t1 = a.kind_name();
                let t2 = b.kind_name();
                let mut msg = String::from_str("TypeMismatchException: relational operator '");
                msg.append(op);
                msg.append("' is not defined between '");
                msg.append(t1.as_str());
                msg.append("' and '");
                msg.append(t2.as_str());
                msg.append("'");
                Err(self.error(ErrorKind::TypeError(msg)))
            },
            Compared::Dangling => Err(self.internal("string value refers to no string")),
        }
    }

    /// `Lt`: register `dest` gets whether `left < right`.
    pub fn handle_lt(&mut self, dest: u16, left: u16, right: u16) -> (r: Result<(), VMError>)
        requires
            old(self).running(),
        ensures
            final(self).wf(),
            final(self).order_outcome(
                old(self),
                r,
                dest,
                left,
                right,
                spec_less(
                    old(self).heap.all_objects@,
                    old(self).reg(left as int),
                    old(self).reg(right as int),
                ),
                "<"@,
            ),
    {
        let v1 = self.get_reg(left as usize)?;
        let v2 = self.get_reg(right as usize)?;
        let c = self.less(&v1, &v2);
        self.order(dest, &v1, &v2, c, "<")
    }

    /// `Gt`: register `dest` gets whether `left > right`, that is, whether
    /// `right < left`.
    pub fn handle_gt(&mut self, dest: u16, left: u16, right: u16) -> (r: Result<(), VMError>)
        requires
            old(self).running(),
        ensures
            final(self).wf(),
            final(self).order_outcome(
                old(self),
                r,
                dest,
                left,
                right,
                spec_less(
                    old(self).heap.all_objects@,
                    old(self).reg(right as int),
                    old(self).reg(left as int),
                ),
                ">"@,
            ),
    {
        let v1 = self.get_reg(left as usize)?;
        let v2 = self.get_reg(right as usize)?;
        let c = self.less(&v2, &v1);
        self.order(dest, &v1, &v2, c, ">")
    }

    /// `Le`: register `dest` gets whether `left <= right`.
    pub fn handle_le(&mut self, dest: u16, left: u16, right: u16) -> (r: Result<(), VMError>)
        requires
            old(self).running(),
        ensures
            final(self).wf(),
            final(self).order_outcome(
                old(self),
                r,
                dest,
                left,
                right,
                spec_less_equal(
                    old(self).heap.all_objects@,
                    old(self).reg(left as int),
                    old(self).reg(right as int),
                ),
                "<="@,
            ),
    {
        let v1 = self.get_reg(left as usize)?;
        let v2 = self.get_reg(right as usize)?;
        let c = self.less_equal(&v1, &v2);
        self.order(dest, &v1, &v2, c, "<=")
    }

    /// `Ge`: register `dest` gets whether `left >= right`, that is, whether
    /// `right <= left`.
    pub fn handle_ge(&mut self, dest: u16, left: u16, right: u16) -> (r: Result<(), VMError>)
        requires
            old(self).running(),
        ensures
            final(self).wf(),
            final(self).order_outcome(
                old(self),
                r,
                dest,
                left,
                right,
                spec_less_equal(
                    old(self).heap.all_objects@,
                    old(self).reg(right as int),
                    old(self).reg(left as int),
                ),
                ">="@,
            ),
    {
        let v1 = self.get_reg(left as usize)?;
        let v2 = self.get_reg(right as usize)?;
        let c = self.less_equal(&v2, &v1);
        self.order(dest, &v1, &v2, c, ">=")
    }

    /// Whether the machine is `old` with the program counter `step`
    /// further.
    pub open spec fn stepped(&self, old: &VirtualMachine, step: int) -> bool {
        &&& self.same_context(old)
        &&& self.top().pc == old.top().pc + step
        &&& self.value_stack == old.value_stack
        &&& self.heap == old.heap
        &&& self.pending == old.pending
    }

    /// What `Test` does to machine `old`.
    pub open spec fn test_outcome(&self, old: &VirtualMachine, r: Result<(), VMError>, reg: u16) -> bool {
        match r {
            Ok(()) => old.has_reg(reg as int) && self.stepped(
                old,
                if old.reg(reg as int).is_truthy() {
                    1
                } else {
                    2
                },
            ),
            Err(e) => (!old.has_reg(reg as int) || (!old.reg(reg as int).is_truthy() && old.top().pc
                + 2 > usize::MAX)) && e.kind is InternalError && self.failed(old, e),
        }
    }

    /// `Test`: goes on with the next instruction if the register counts as
    /// true, and skips it if not.
    pub fn handle_test(&mut self, reg: u16) -> (r: Result<(), VMError>)
        requires
            old(self).running(),
        ensures
            final(self).wf(),
            final(self).test_outcome(old(self), r, reg),
    {
        let val = self.get_reg(reg as usize)?;
        let n = self.call_stack.len();
        if val.is_truthy() {
            self.call_stack[n - 1].pc = self.call_stack[n - 1].pc + 1;
        } else {
            if self.call_stack[n - 1].pc >= usize::MAX - 1 {
                return Err(self.internal("program counter out of range"));
            }
            self.call_stack[n - 1].pc = self.call_stack[n - 1].pc + 2;
        }
        proof {
            self.lemma_same_frames(old(self));
        }
        Ok(())
    }
}

} // verus!
