//! Run-time errors.

use vstd::prelude::*;
use crate::common::text::{decimal, spec_decimal};

verus! {

#[derive(Debug, Clone, PartialEq)]
pub enum ErrorKind {
    /// An operand of the wrong type.
    TypeError(String),
    /// A read of a global that has no value.
    UndefinedVariable(String),
    /// A call of something that is no function.
    InvalidCall(String),
    /// A division or a modulo by zero.
    ArithmeticError(String),
    /// More frames than the call stack takes.
    StackOverflow,
    /// An allocation beyond the limit.
    OutOfMemory,
    /// A return of more than one value.
    MultipleReturnValues(String),
    /// Corrupt bytecode, or a state that the machine should not be in.
    InternalError(String),
    /// An upvalue index beyond the frame's upvalues.
    UndefinedUpValue(u16),
}

/// An error with the place where it was raised: the function and the
/// program counter of the top frame, and the names of all frames, the oldest
/// first.
#[derive(Debug, Clone, PartialEq)]
pub struct VMError {
    pub kind: ErrorKind,
    pub func_name: String,
    pub pc: usize,
    pub stack_trace: Vec<String>,
}

/// The message of an error kind.
pub open spec fn spec_message(kind: ErrorKind) -> Seq<char> {
    match kind {
        ErrorKind::TypeError(m) => m@,
        ErrorKind::UndefinedVariable(v) => "variable '"@ + v@ + "' is not defined"@,
        ErrorKind::InvalidCall(m) => m@,
        ErrorKind::InternalError(m) => "[Internal] "@ + m@,
        ErrorKind::ArithmeticError(m) => "ArithmeticError(\""@ + m@ + "\")"@,
        ErrorKind::MultipleReturnValues(m) => "MultipleReturnValues(\""@ + m@ + "\")"@,
        ErrorKind::StackOverflow => "StackOverflow"@,
        ErrorKind::OutOfMemory => "OutOfMemory"@,
        ErrorKind::UndefinedUpValue(i) => "UndefinedUpValue("@ + spec_decimal(i as nat) + ")"@,
    }
}

/// The heading under which a report shows an error kind.
pub open spec fn spec_heading(kind: ErrorKind) -> Seq<char> {
    match kind {
        ErrorKind::TypeError(_) => "[Type Error]"@,
        ErrorKind::UndefinedVariable(_) => "[Undefined Variable]"@,
        ErrorKind::InvalidCall(_) => "[Invalid Call]"@,
        ErrorKind::ArithmeticError(_) => "[Arithmetic Error]"@,
        ErrorKind::StackOverflow => "[Stack Overflow]"@,
        ErrorKind::OutOfMemory => "[Out Of Memory]"@,
        ErrorKind::MultipleReturnValues(_) => "[Multiple Return Values]"@,
        ErrorKind::InternalError(_) => "[Internal Error]"@,
        ErrorKind::UndefinedUpValue(_) => "[Undefined UpValue]"@,
    }
}

impl ErrorKind {
    /// A copy of the error kind.
    pub fn dup(&self) -> (r: ErrorKind)
        ensures
            r == *self,
    {
        match self {
            ErrorKind::TypeError(m) => ErrorKind::TypeError(m.clone()),
            ErrorKind::UndefinedVariable(m) => ErrorKind::UndefinedVariable(m.clone()),
            ErrorKind::InvalidCall(m) => ErrorKind::InvalidCall(m.clone()),
            ErrorKind::ArithmeticError(m) => ErrorKind::ArithmeticError(m.clone()),
            ErrorKind::StackOverflow => ErrorKind::StackOverflow,
            ErrorKind::OutOfMemory => ErrorKind::OutOfMemory,
            ErrorKind::MultipleReturnValues(m) => ErrorKind::MultipleReturnValues(m.clone()),
            ErrorKind::InternalError(m) => ErrorKind::InternalError(m.clone()),
            ErrorKind::UndefinedUpValue(i) => ErrorKind::UndefinedUpValue(*i),
        }
    }

    /// The heading under which a report shows the error kind.
    pub fn heading(&self) -> (r: String)
        ensures
            r@ == spec_heading(*self),
    {
        match self {
            ErrorKind::TypeError(_) => String::from_str("[Type Error]"),
            ErrorKind::UndefinedVariable(_) => String::from_str("[Undefined Variable]"),
            ErrorKind::InvalidCall(_) => String::from_str("[Invalid Call]"),
            ErrorKind::ArithmeticError(_) => String::from_str("[Arithmetic Error]"),
            ErrorKind::StackOverflow => String::from_str("[Stack Overflow]"),
            ErrorKind::OutOfMemory => String::from_str("[Out Of Memory]"),
            ErrorKind::MultipleReturnValues(_) => String::from_str("[Multiple Return Values]"),
            ErrorKind::InternalError(_) => String::from_str("[Internal Error]"),
            ErrorKind::UndefinedUpValue(_) => String::from_str("[Undefined UpValue]"),
        }
    }
}

impl VMError {
    /// The message of the error: the text of a type or call error, a
    /// sentence naming an undefined variable, the text of an internal error
    /// after `[Internal] `, and the name of any other kind with its content.
    pub fn get_message(&self) -> (r: String)
        ensures
            r@ == spec_message(self.kind),
    {
        match &self.kind {
            ErrorKind::TypeError(m) => m.clone(),
            ErrorKind::UndefinedVariable(v) => {
                let mut s = String::from_str("variable '");
                s.append(v.as_str());
                s.append("' is not defined");
                s
            },
            ErrorKind::InvalidCall(m) => m.clone(),
            ErrorKind::InternalError(m) => {
                let mut s = String::from_str("[Internal] ");
                s.append(m.as_str());
                s
            },
            ErrorKind::ArithmeticError(m) => {
                let mut s = String::from_str("ArithmeticError(\"");
                s.append(m.as_str());
                s.append("\")");
                s
            },
            ErrorKind::MultipleReturnValues(m) => {
                let mut s = String::from_str("MultipleReturnValues(\"");
                s.append(m.as_str());
                s.append("\")");
                s
            },
            ErrorKind::StackOverflow => String::from_str("StackOverflow"),
            ErrorKind::OutOfMemory => String::from_str("OutOfMemory"),
            ErrorKind::UndefinedUpValue(i) => {
                let mut s = String::from_str("UndefinedUpValue(");
                let d = decimal(*i as usize);
                s.append(d.as_str());
                s.append(")");
                s
            },
        }
    }
}

/// The rule that a report draws above and below its parts.
pub open spec fn spec_rule() -> Seq<char> {
    "======================================================================"@
}

/// A program counter in at least four digits.
pub open spec fn spec_pc_text(pc: usize) -> Seq<char> {
    (if pc < 10 {
        "000"@
    } else if pc < 100 {
        "00"@
    } else if pc < 1000 {
        "0"@
    } else {
        ""@
    }) + spec_decimal(pc as nat)
}

/// The line of frame `i` in a traceback.
pub open spec fn spec_frame_line(i: int, name: Seq<char>) -> Seq<char> {
    "    #"@ + spec_decimal(i as nat) + (if i < 10 {
        " "@
    } else {
        ""@
    }) + " at "@ + name + "()\n"@
}

/// The lines of the frames from the newest down to frame `from`.
pub open spec fn spec_trace_text(trace: Seq<String>, from: int) -> Seq<char>
    decreases trace.len() - from,
{
    if from < 0 || from >= trace.len() {
        Seq::empty()
    } else {
        spec_trace_text(trace, from + 1) + spec_frame_line(from, trace[from]@)
    }
}

/// The report of an error: between rules, its message and its place; then
/// the traceback, the newest frame first.
pub open spec fn spec_report(e: VMError) -> Seq<char> {
    "\n"@ + spec_rule() + "\n  "@ + spec_message(e.kind) + "\n  Location: Function '"@
        + e.func_name@ + "' at instruction offset [PC: "@ + spec_pc_text(e.pc) + "]\n"@
        + spec_rule() + "\n  Stack Traceback (most recent call first):\n"@ + (
    if e.stack_trace@.len() == 0 {
        "    <empty_stack>\n"@
    } else {
        spec_trace_text(e.stack_trace@, 0)
    }) + spec_rule() + "\n"@
}

impl VMError {
    fn pc_text(&self) -> (r: String)
        ensures
            r@ == spec_pc_text(self.pc),
    {
        let mut s = if self.pc < 10 {
            String::from_str("000")
        } else if self.pc < 100 {
            String::from_str("00")
        } else if self.pc < 1000 {
            String::from_str("0")
        } else {
            String::from_str("")
        };
        let d = decimal(self.pc);
        s.append(d.as_str());
        s
    }

    fn trace_text(&self) -> (r: String)
        ensures
            r@ == spec_trace_text(self.stack_trace@, 0),
    {
        let mut s = String::new();
        let mut i: usize = self.stack_trace.len();
        while i > 0
            invariant
                i <= self.stack_trace.len(),
                s@ == spec_trace_text(self.stack_trace@, i as int),
            decreases i,
        {
            i -= 1;
            s.append("    #");
            let d = decimal(i);
            s.append(d.as_str());
            if i < 10 {
                s.append(" ");
            } else {
                s.append("");
            }
            s.append(" at ");
            s.append(self.stack_trace[i].as_str());
            s.append("()\n");
        }
        s
    }

    /// The report of the error; see [`spec_report`].
    pub fn report(&self) -> (r: String)
        ensures
            r@ == spec_report(*self),
    {
        let rule = "======================================================================";
        let mut s = String::from_str("\n");
        s.append(rule);
        s.append("\n  ");
        let m = self.get_message();
        s.append(m.as_str());
        s.append("\n  Location: Function '");
        s.append(self.func_name.as_str());
        s.append("' at instruction offset [PC: ");
        let p = self.pc_text();
        s.append(p.as_str());
        s.append("]\n");
        s.append(rule);
        s.append("\n  Stack Traceback (most recent call first):\n");
        if self.stack_trace.len() == 0 {
            s.append("    <empty_stack>\n");
        } else {
            let t = self.trace_text();
            s.append(t.as_str());
        }
        s.append(rule);
        s.append("\n");
        s
    }
}

} // verus!
