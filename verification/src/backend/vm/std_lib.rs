//! The functions built into the machine.

use vstd::prelude::*;
use crate::backend::vm::error::VMError;
use crate::backend::vm::heap::{spec_string_at, Slots};
use crate::backend::vm::{spec_pieces, OutputPiece, PieceView, VirtualMachine};
use crate::common::object::LuaValue;
use crate::common::text::{decimal, spec_decimal};

verus! {

/// How `print` shows a value: `nil`, `true` or `false`, a number as the
/// host renders it, the text of a string, and a table or a function by its
/// kind and its handle. `None` for a string value that refers to no string.
pub open spec fn spec_display(objs: Slots, v: LuaValue) -> Option<PieceView> {
    match v {
        LuaValue::Nil => Some(PieceView::Text("nil"@)),
        LuaValue::Boolean(b) => Some(
            PieceView::Text(
                if b {
                    "true"@
                } else {
                    "false"@
                },
            ),
        ),
        LuaValue::Number(n) => Some(PieceView::Number(n)),
        LuaValue::String(h) => match spec_string_at(objs, h) {
            Some(s) => Some(PieceView::Text(s)),
            None => None,
        },
        LuaValue::Table(h) => Some(PieceView::Text("table: "@ + spec_decimal(h as nat))),
        LuaValue::Function(h) => Some(PieceView::Text("function: "@ + spec_decimal(h as nat))),
        LuaValue::CFunc(_) => Some(PieceView::Text("function: builtin"@)),
        LuaValue::TempString(_) => Some(PieceView::Text("unknown"@)),
    }
}

/// What `print` writes for the first `n` of its arguments: each as it is
/// shown, with a tab between two of them.
pub open spec fn spec_print_args(objs: Slots, args: Seq<LuaValue>, n: int) -> Option<Seq<PieceView>>
    decreases n,
{
    if n <= 0 {
        Some(Seq::empty())
    } else {
        match (spec_print_args(objs, args, n - 1), spec_display(objs, args[n - 1])) {
            (Some(before), Some(piece)) => Some(
                if n == 1 {
                    before.push(piece)
                } else {
                    before.push(PieceView::Text("\t"@)).push(piece)
                },
            ),
            _ => None,
        }
    }
}

/// What `print` writes: its arguments, with tabs between them, and a
/// newline.
pub open spec fn spec_print_line(objs: Slots, args: Seq<LuaValue>) -> Option<Seq<PieceView>> {
    match spec_print_args(objs, args, args.len() as int) {
        Some(pieces) => Some(pieces.push(PieceView::Text("\n"@))),
        None => None,
    }
}

/// Once an argument cannot be shown, the line cannot be written.
pub proof fn lemma_print_args_none(objs: Slots, args: Seq<LuaValue>, n: int, m: int)
    requires
        0 <= n <= m,
        spec_print_args(objs, args, n) is None,
    ensures
        spec_print_args(objs, args, m) is None,
    decreases m - n,
{
    if n < m {
        lemma_print_args_none(objs, args, n, m - 1);
    }
}

impl VirtualMachine {
    /// The first `argc` registers of the top frame.
    pub open spec fn spec_args(&self, argc: int) -> Seq<LuaValue> {
        Seq::new(argc as nat, |i: int| self.reg(i))
    }

    /// How `print` shows a value; see [`spec_display`].
    pub fn display(&self, v: &LuaValue) -> (r: Option<OutputPiece>)
        ensures
            match r {
                Some(p) => spec_display(self.heap.all_objects@, *v) == Some(p@),
                None => spec_display(self.heap.all_objects@, *v) is None,
            },
    {
        match v {
            LuaValue::Nil => Some(OutputPiece::Text(String::from_str("nil"))),
            LuaValue::Boolean(b) => Some(
                OutputPiece::Text(
                    if *b {
                        String::from_str("true")
                    } else {
                        String::from_str("false")
                    },
                ),
            ),
            LuaValue::Number(n) => Some(OutputPiece::Number(*n)),
            LuaValue::String(h) => match self.heap.string_of(*h) {
                Some(s) => Some(OutputPiece::Text(s)),
                None => None,
            },
            LuaValue::Table(h) => {
                let mut s = String::from_str("table: ");
                let d = decimal(*h);
                s.append(d.as_str());
                Some(OutputPiece::Text(s))
            },
            LuaValue::Function(h) => {
                let mut s = String::from_str("function: ");
                let d = decimal(*h);
                s.append(d.as_str());
                Some(OutputPiece::Text(s))
            },
            LuaValue::CFunc(_) => Some(OutputPiece::Text(String::from_str("function: builtin"))),
            LuaValue::TempString(_) => Some(OutputPiece::Text(String::from_str("unknown"))),
        }
    }
}

/// The built-in `print`: writes the first `argc` registers of the top
/// frame, as [`spec_print_line`] says, and yields no result.
pub fn lua_builtin_print(vm: &mut VirtualMachine, argc: usize) -> (r: Result<usize, VMError>)
    requires
        old(vm).wf(),
        old(vm).call_stack@.len() > 0,
    ensures
        final(vm).wf(),
        final(vm).call_stack == old(vm).call_stack,
        final(vm).value_stack == old(vm).value_stack,
        final(vm).globals == old(vm).globals,
        final(vm).func_meta == old(vm).func_meta,
        final(vm).heap == old(vm).heap,
        final(vm).log_level == old(vm).log_level,
        final(vm).pending == old(vm).pending,
        match r {
            Ok(n) => n == 0 && argc <= old(vm).top().reg_count && spec_print_line(
                old(vm).heap.all_objects@,
                old(vm).spec_args(argc as int),
            ) is Some && spec_pieces(final(vm).output@) == spec_pieces(old(vm).output@)
                + spec_print_line(
                old(vm).heap.all_objects@,
                old(vm).spec_args(argc as int),
            )->Some_0,
            Err(e) => (argc > old(vm).top().reg_count || spec_print_line(
                old(vm).heap.all_objects@,
                old(vm).spec_args(argc as int),
            ) is None) && e.kind is InternalError && old(vm).locates(e) && *final(vm) == *old(vm),
        },
{
    let n = vm.call_stack.len();
    if argc > vm.call_stack[n - 1].reg_count {
        return Err(vm.internal("print: argument out of range"));
    }
    let ghost objs = vm.heap.all_objects@;
    let ghost args = vm.spec_args(argc as int);
    let mut line: Vec<OutputPiece> = Vec::new();
    let mut i: usize = 0;
    while i < argc
        invariant
            i <= argc,
            *vm == *old(vm),
            vm.wf(),
            n == vm.call_stack@.len(),
            n > 0,
            argc <= vm.top().reg_count,
            objs == vm.heap.all_objects@,
            args == vm.spec_args(argc as int),
            spec_print_args(objs, args, i as int) == Some(spec_pieces(line@)),
        decreases argc - i,
    {
        let v = match vm.get_reg(i) {
            Ok(v) => v,
            Err(e) => {
                return Err(e);
            },
        };
        let piece = match vm.display(&v) {
            Some(p) => p,
            None => {
                proof {
                    assert(args[i as int] == v);
                    lemma_print_args_none(objs, args, i + 1, argc as int);
                }
                return Err(vm.internal("string value refers to no string"));
            },
        };
        proof {
            assert(args[i as int] == v);
        }
        let ghost before = spec_pieces(line@);
        if i > 0 {
            line.push(OutputPiece::Text(String::from_str("\t")));
        }
        let ghost shown = piece@;
        line.push(piece);
        proof {
            if i > 0 {
                assert(spec_pieces(line@) =~= before.push(PieceView::Text("\t"@)).push(shown));
            } else {
                assert(spec_pieces(line@) =~= before.push(shown));
            }
        }
        i += 1;
    }
    let ghost before = spec_pieces(line@);
    line.push(OutputPiece::Text(String::from_str("\n")));
    proof {
        assert(spec_pieces(line@) =~= before.push(PieceView::Text("\n"@)));
    }
    let ghost whole = spec_pieces(line@);
    let ghost out0 = spec_pieces(vm.output@);
    vm.output.append(&mut line);
    proof {
        assert(spec_pieces(vm.output@) =~= out0 + whole);
        vm.lemma_same_frames(old(vm));
    }
    Ok(0)
}

} // verus!
