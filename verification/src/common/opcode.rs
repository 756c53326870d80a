//! The instruction set of the virtual machine.

use vstd::prelude::*;
use crate::common::text::{decimal, decimal_u64, spec_decimal};

verus! {

/// The operator of a unary instruction.
#[derive(Debug, Clone, Copy, PartialEq, Eq, Structural)]
pub enum UnaryOpType {
    Neg,
    Not,
    Len,
}

/// One instruction of the register machine. Registers and constant indices
/// are relative to the executing frame.
#[allow(inconsistent_fields)]
#[derive(Debug, Clone, Copy, PartialEq, Eq, Structural)]
pub enum OpCode {
    LoadK { dest: u16, const_idx: u16 },
    LoadNil { dest: u16 },
    LoadBool { dest: u16, value: bool },
    Move { dest: u16, src: u16 },
    GetGlobal { dest: u16, name_idx: u16 },
    SetGlobal { name_idx: u16, src: u16 },
    GetUpVal { dest: u16, upval_idx: u16 },
    SetUpVal { upval_idx: u16, src: u16 },
    Add { dest: u16, left: u16, right: u16 },
    Sub { dest: u16, left: u16, right: u16 },
    Mul { dest: u16, left: u16, right: u16 },
    Div { dest: u16, left: u16, right: u16 },
    Mod { dest: u16, left: u16, right: u16 },
    Pow { dest: u16, left: u16, right: u16 },
    Concat { dest: u16, left: u16, right: u16 },
    And { dest: u16, left: u16, right: u16 },
    Or { dest: u16, left: u16, right: u16 },
    UnOp { dest: u16, src: u16, op: UnaryOpType },
    Eq { dest: u16, left: u16, right: u16 },
    Ne { dest: u16, left: u16, right: u16 },
    Lt { dest: u16, left: u16, right: u16 },
    Gt { dest: u16, left: u16, right: u16 },
    Le { dest: u16, left: u16, right: u16 },
    Ge { dest: u16, left: u16, right: u16 },
    Test { reg: u16 },
    Jump { offset: i32 },
    NewTable { dest: u16, size_array: u16, size_hash: u16 },
    GetTable { dest: u16, table: u16, key: u16 },
    SetTable { table: u16, key: u16, value: u16 },
    FnProto { dest: u16, proto_idx: u16 },
    Call { func_reg: u16, argc: u8, retc: u8 },
    Push { src: u16 },
    Return { start: u16, count: u8 },
    Halt,
}

/// A number after a letter that says what it counts: `R` a register, `K` a
/// constant, `U` an upvalue; no letter before a plain number.
pub open spec fn spec_tagged(tag: Seq<char>, n: nat) -> Seq<char> {
    " "@ + tag + spec_decimal(n)
}

/// The text of an instruction on three registers.
pub open spec fn spec_three(name: Seq<char>, dest: u16, left: u16, right: u16) -> Seq<char> {
    name + spec_tagged("R"@, dest as nat) + spec_tagged("R"@, left as nat) + spec_tagged(
        "R"@,
        right as nat,
    )
}

/// The text of an instruction: its name in capitals, then its operands.
pub open spec fn spec_opcode_text(op: OpCode) -> Seq<char> {
    match op {
        OpCode::LoadK { dest, const_idx } => "LOADK   "@ + spec_tagged("R"@, dest as nat)
            + spec_tagged("K"@, const_idx as nat),
        OpCode::LoadNil { dest } => "LOADNIL "@ + spec_tagged("R"@, dest as nat),
        OpCode::LoadBool { dest, value } => "LOADBOOL"@ + spec_tagged("R"@, dest as nat) + (
        if value {
            " true"@
        } else {
            " false"@
        }),
        OpCode::Move { dest, src } => "MOVE    "@ + spec_tagged("R"@, dest as nat) + spec_tagged(
            "R"@,
            src as nat,
        ),
        OpCode::GetGlobal { dest, name_idx } => "GETGLOBAL"@ + spec_tagged("R"@, dest as nat)
            + spec_tagged("K"@, name_idx as nat),
        OpCode::SetGlobal { name_idx, src } => "SETGLOBAL"@ + spec_tagged("K"@, name_idx as nat)
            + spec_tagged("R"@, src as nat),
        OpCode::GetUpVal { dest, upval_idx } => "GETUPVAL"@ + spec_tagged("R"@, dest as nat)
            + spec_tagged("U"@, upval_idx as nat),
        OpCode::SetUpVal { upval_idx, src } => "SETUPVAL"@ + spec_tagged("U"@, upval_idx as nat)
            + spec_tagged("R"@, src as nat),
        OpCode::Add { dest, left, right } => spec_three("ADD     "@, dest, left, right),
        OpCode::Sub { dest, left, right } => spec_three("SUB     "@, dest, left, right),
        OpCode::Mul { dest, left, right } => spec_three("MUL     "@, dest, left, right),
        OpCode::Div { dest, left, right } => spec_three("DIV     "@, dest, left, right),
        OpCode::Mod { dest, left, right } => spec_three("MOD     "@, dest, left, right),
        OpCode::Pow { dest, left, right } => spec_three("POW     "@, dest, left, right),
        OpCode::Concat { dest, left, right } => spec_three("CONCAT  "@, dest, left, right),
        OpCode::And { dest, left, right } => spec_three("AND     "@, dest, left, right),
        OpCode::Or { dest, left, right } => spec_three("OR      "@, dest, left, right),
        OpCode::Eq { dest, left, right } => spec_three("EQ      "@, dest, left, right),
        OpCode::Ne { dest, left, right } => spec_three("NE      "@, dest, left, right),
        OpCode::Lt { dest, left, right } => spec_three("LT      "@, dest, left, right),
        OpCode::Gt { dest, left, right } => spec_three("GT      "@, dest, left, right),
        OpCode::Le { dest, left, right } => spec_three("LE      "@, dest, left, right),
        OpCode::Ge { dest, left, right } => spec_three("GE      "@, dest, left, right),
        OpCode::UnOp { dest, src, op } => "UNOP    "@ + spec_tagged("R"@, dest as nat)
            + spec_tagged("R"@, src as nat) + (match op {
            UnaryOpType::Neg => " Neg"@,
            UnaryOpType::Not => " Not"@,
            UnaryOpType::Len => " Len"@,
        }),
        OpCode::Test { reg } => "TEST    "@ + spec_tagged("R"@, reg as nat),
        OpCode::Jump { offset } => "JUMP     "@ + (if offset < 0 {
            "-"@ + spec_decimal((-offset) as nat)
        } else {
            spec_decimal(offset as nat)
        }),
        OpCode::NewTable { dest, size_array, size_hash } => "NEWTABLE"@ + spec_tagged(
            "R"@,
            dest as nat,
        ) + spec_tagged(""@, size_array as nat) + spec_tagged(""@, size_hash as nat),
        OpCode::GetTable { dest, table, key } => spec_three("GETTABLE"@, dest, table, key),
        OpCode::SetTable { table, key, value } => spec_three("SETTABLE"@, table, key, value),
        OpCode::FnProto { dest, proto_idx } => "FNPROTO "@ + spec_tagged("R"@, dest as nat)
            + spec_tagged("K"@, proto_idx as nat),
        OpCode::Call { func_reg, argc, retc } => "CALL    "@ + spec_tagged("R"@, func_reg as nat)
            + spec_tagged(""@, argc as nat) + spec_tagged(""@, retc as nat),
        OpCode::Push { src } => "PUSH    "@ + spec_tagged("R"@, src as nat),
        OpCode::Return { start, count } => "RETURN  "@ + spec_tagged("R"@, start as nat)
            + spec_tagged(""@, count as nat),
        OpCode::Halt => "HALT"@,
    }
}

fn tagged(s: &mut String, tag: &str, n: usize)
    ensures
        final(s)@ == old(s)@ + spec_tagged(tag@, n as nat),
{
    s.append(" ");
    s.append(tag);
    let d = decimal(n);
    s.append(d.as_str());
    proof {
        assert(final(s)@ =~= old(s)@ + spec_tagged(tag@, n as nat));
    }
}

fn three(name: &str, dest: u16, left: u16, right: u16) -> (r: String)
    ensures
        r@ == spec_three(name@, dest, left, right),
{
    let mut s = String::from_str(name);
    tagged(&mut s, "R", dest as usize);
    tagged(&mut s, "R", left as usize);
    tagged(&mut s, "R", right as usize);
    s
}

fn two(name: &str, first: &str, a: u16, second: &str, b: u16) -> (r: String)
    ensures
        r@ == name@ + spec_tagged(first@, a as nat) + spec_tagged(second@, b as nat),
{
    let mut s = String::from_str(name);
    tagged(&mut s, first, a as usize);
    tagged(&mut s, second, b as usize);
    s
}

fn one(name: &str, a: u16) -> (r: String)
    ensures
        r@ == name@ + spec_tagged("R"@, a as nat),
{
    let mut s = String::from_str(name);
    tagged(&mut s, "R", a as usize);
    s
}

impl OpCode {
    /// The text of the instruction; see [`spec_opcode_text`].
    pub fn to_string(&self) -> (r: String)
        ensures
            r@ == spec_opcode_text(*self),
    {
        match self {
            OpCode::LoadK { dest, const_idx } => two("LOADK   ", "R", *dest, "K", *const_idx),
            OpCode::LoadNil { dest } => one("LOADNIL ", *dest),
            OpCode::LoadBool { dest, value } => {
                let mut s = one("LOADBOOL", *dest);
                if *value {
                    s.append(" true");
                } else {
                    s.append(" false");
                }
                s
            },
            OpCode::Move { dest, src } => two("MOVE    ", "R", *dest, "R", *src),
            OpCode::GetGlobal { dest, name_idx } => two("GETGLOBAL", "R", *dest, "K", *name_idx),
            OpCode::SetGlobal { name_idx, src } => two("SETGLOBAL", "K", *name_idx, "R", *src),
            OpCode::GetUpVal { dest, upval_idx } => two("GETUPVAL", "R", *dest, "U", *upval_idx),
            OpCode::SetUpVal { upval_idx, src } => two("SETUPVAL", "U", *upval_idx, "R", *src),
            OpCode::Add { dest, left, right } => three("ADD     ", *dest, *left, *right),
            OpCode::Sub { dest, left, right } => three("SUB     ", *dest, *left, *right),
            OpCode::Mul { dest, left, right } => three("MUL     ", *dest, *left, *right),
            OpCode::Div { dest, left, right } => three("DIV     ", *dest, *left, *right),
            OpCode::Mod { dest, left, right } => three("MOD     ", *dest, *left, *right),
            OpCode::Pow { dest, left, right } => three("POW     ", *dest, *left, *right),
            OpCode::Concat { dest, left, right } => three("CONCAT  ", *dest, *left, *right),
            OpCode::And { dest, left, right } => three("AND     ", *dest, *left, *right),
            OpCode::Or { dest, left, right } => three("OR      ", *dest, *left, *right),
            OpCode::Eq { dest, left, right } => three("EQ      ", *dest, *left, *right),
            OpCode::Ne { dest, left, right } => three("NE      ", *dest, *left, *right),
            OpCode::Lt { dest, left, right } => three("LT      ", *dest, *left, *right),
            OpCode::Gt { dest, left, right } => three("GT      ", *dest, *left, *right),
            OpCode::Le { dest, left, right } => three("LE      ", *dest, *left, *right),
            OpCode::Ge { dest, left, right } => three("GE      ", *dest, *left, *right),
            OpCode::UnOp { dest, src, op } => {
                let mut s = two("UNOP    ", "R", *dest, "R", *src);
                match op {
                    UnaryOpType::Neg => s.append(" Neg"),
                    UnaryOpType::Not => s.append(" Not"),
                    UnaryOpType::Len => s.append(" Len"),
                }
                s
            },
            OpCode::Test { reg } => one("TEST    ", *reg),
            OpCode::Jump { offset } => {
                let mut s = String::from_str("JUMP     ");
                let mut t = String::new();
                if *offset < 0 {
                    t.append("-");
                    let wide: i64 = *offset as i64;
                    let d = decimal_u64((0 - wide) as u64);
                    t.append(d.as_str());
                } else {
                    let d = decimal_u64(*offset as u64);
                    t.append(d.as_str());
                }
                s.append(t.as_str());
                s
            },
            OpCode::NewTable { dest, size_array, size_hash } => {
                let mut s = two("NEWTABLE", "R", *dest, "", *size_array);
                tagged(&mut s, "", *size_hash as usize);
                s
            },
            OpCode::GetTable { dest, table, key } => three("GETTABLE", *dest, *table, *key),
            OpCode::SetTable { table, key, value } => three("SETTABLE", *table, *key, *value),
            OpCode::FnProto { dest, proto_idx } => two("FNPROTO ", "R", *dest, "K", *proto_idx),
            OpCode::Call { func_reg, argc, retc } => {
                let mut s = one("CALL    ", *func_reg);
                tagged(&mut s, "", *argc as usize);
                tagged(&mut s, "", *retc as usize);
                s
            },
            OpCode::Push { src } => one("PUSH    ", *src),
            OpCode::Return { start, count } => {
                let mut s = one("RETURN  ", *start);
                tagged(&mut s, "", *count as usize);
                s
            },
            OpCode::Halt => String::from_str("HALT"),
        }
    }
}

} // verus!
