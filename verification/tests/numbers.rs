//! Numbers as bit patterns, numerals and the byte order of texts.

use myula::common::number::{
    from_usize, is_nan, is_negative, is_zero, negate, num_eq, num_le, num_lt, to_u16,
};
use myula::common::opcode::{OpCode, UnaryOpType};
use myula::common::text::{decimal, decimal_u64, text_le, text_lt};

fn bits(x: f64) -> u64 {
    x.to_bits()
}

fn samples() -> Vec<f64> {
    vec![
        0.0,
        -0.0,
        1.0,
        -1.0,
        0.5,
        -0.5,
        2.5,
        1e300,
        -1e300,
        5e-324,
        -5e-324,
        65535.0,
        65536.0,
        f64::INFINITY,
        f64::NEG_INFINITY,
        f64::NAN,
        f64::MAX,
        f64::MIN,
        f64::MIN_POSITIVE,
    ]
}

#[test]
fn classification_agrees_with_the_hardware() {
    for x in samples() {
        assert_eq!(is_nan(bits(x)), x.is_nan(), "{}", x);
        assert_eq!(is_zero(bits(x)), x == 0.0, "{}", x);
        assert_eq!(is_negative(bits(x)), x.is_sign_negative(), "{}", x);
    }
}

#[test]
fn negation_flips_the_sign() {
    for x in samples() {
        if !x.is_nan() {
            assert_eq!(negate(bits(x)), bits(-x), "{}", x);
        }
        assert_eq!(negate(negate(bits(x))), bits(x));
    }
    assert_eq!(negate(bits(0.0)), bits(-0.0));
}

#[test]
fn comparisons_agree_with_the_hardware() {
    for x in samples() {
        for y in samples() {
            assert_eq!(num_eq(bits(x), bits(y)), x == y, "{} == {}", x, y);
            assert_eq!(num_lt(bits(x), bits(y)), x < y, "{} < {}", x, y);
            assert_eq!(num_le(bits(x), bits(y)), x <= y, "{} <= {}", x, y);
        }
    }
}

#[test]
fn the_two_zeros_are_equal_and_nan_equals_nothing() {
    assert!(num_eq(bits(0.0), bits(-0.0)));
    assert!(!num_lt(bits(-0.0), bits(0.0)));
    assert!(num_le(bits(0.0), bits(-0.0)));
    assert!(!num_eq(bits(f64::NAN), bits(f64::NAN)));
    assert!(!num_le(bits(f64::NAN), bits(1.0)));
    assert!(!num_lt(bits(1.0), bits(f64::NAN)));
}

#[test]
fn conversion_to_sixteen_bits_truncates_and_saturates() {
    assert_eq!(to_u16(bits(0.0)), 0);
    assert_eq!(to_u16(bits(0.99)), 0);
    assert_eq!(to_u16(bits(1.0)), 1);
    assert_eq!(to_u16(bits(1.99)), 1);
    assert_eq!(to_u16(bits(3.0)), 3);
    assert_eq!(to_u16(bits(255.5)), 255);
    assert_eq!(to_u16(bits(65535.0)), 65535);
    assert_eq!(to_u16(bits(65535.9)), 65535);
    assert_eq!(to_u16(bits(65536.0)), 65535);
    assert_eq!(to_u16(bits(1e10)), 65535);
    assert_eq!(to_u16(bits(f64::INFINITY)), 65535);
    assert_eq!(to_u16(bits(-1.0)), 0);
    assert_eq!(to_u16(bits(-0.0)), 0);
    assert_eq!(to_u16(bits(f64::NAN)), 0);
    assert_eq!(to_u16(bits(f64::NEG_INFINITY)), 0);
    for x in samples() {
        assert_eq!(to_u16(bits(x)), x as u16, "{}", x);
    }
}

#[test]
fn small_counts_are_their_own_numbers() {
    assert_eq!(from_usize(0), 0);
    assert_eq!(from_usize(1), 0x3ff0_0000_0000_0000);
    assert_eq!(from_usize(2), 0x4000_0000_0000_0000);
    assert_eq!(from_usize(3), 0x4008_0000_0000_0000);
    for n in 0..3000usize {
        assert_eq!(from_usize(n), bits(n as f64), "{}", n);
    }
}

#[test]
fn large_counts_round_to_the_nearest_number_ties_to_even() {
    let limit: usize = 1 << 53;
    let cases = [
        limit - 1,
        limit,
        limit + 1,
        limit + 2,
        limit + 3,
        limit + 4,
        limit + 5,
        (1 << 54) + 2,
        (1 << 54) + 6,
        (1 << 60) + 127,
        (1 << 60) + 128,
        (1 << 60) + 129,
        (1 << 60) + 384,
        usize::MAX,
        usize::MAX - 1024,
        usize::MAX / 3,
    ];
    for n in cases {
        assert_eq!(from_usize(n), bits(n as f64), "{}", n);
    }
    assert_eq!(from_usize(limit + 1), bits(9007199254740992.0));
    assert_eq!(from_usize(limit + 3), bits(9007199254740996.0));
}

#[test]
fn numerals_have_no_leading_zeros() {
    assert_eq!(decimal(0), "0");
    assert_eq!(decimal(7), "7");
    assert_eq!(decimal(10), "10");
    assert_eq!(decimal(1234567890), "1234567890");
    assert_eq!(decimal(usize::MAX), usize::MAX.to_string());
    assert_eq!(decimal_u64(u64::MAX), "18446744073709551615");
    assert_eq!(decimal_u64(100), "100");
}

#[test]
fn texts_are_ordered_by_their_bytes() {
    assert!(text_lt("", "a"));
    assert!(!text_lt("", ""));
    assert!(!text_lt("a", ""));
    assert!(text_lt("a", "b"));
    assert!(text_lt("a", "ab"));
    assert!(!text_lt("ab", "a"));
    assert!(text_lt("Z", "a"));
    assert!(text_lt("abc", "abd"));
    assert!(!text_lt("abc", "abc"));
    assert!(text_le("abc", "abc"));
    assert!(text_le("", ""));
    assert!(!text_le("b", "a"));
    assert!(text_lt("z", "\u{e9}"));
    let words = ["", "a", "ab", "b", "B", "\u{e9}", "zz", "z"];
    for x in words {
        for y in words {
            assert_eq!(text_lt(x, y), x < y, "{:?} < {:?}", x, y);
            assert_eq!(text_le(x, y), x <= y, "{:?} <= {:?}", x, y);
        }
    }
}

#[test]
fn instructions_are_shown_by_name_and_operands() {
    assert_eq!(OpCode::LoadK { dest: 1, const_idx: 2 }.to_string(), "LOADK    R1 K2");
    assert_eq!(OpCode::LoadNil { dest: 0 }.to_string(), "LOADNIL  R0");
    assert_eq!(OpCode::LoadBool { dest: 3, value: true }.to_string(), "LOADBOOL R3 true");
    assert_eq!(OpCode::LoadBool { dest: 3, value: false }.to_string(), "LOADBOOL R3 false");
    assert_eq!(OpCode::Move { dest: 4, src: 5 }.to_string(), "MOVE     R4 R5");
    assert_eq!(OpCode::GetGlobal { dest: 0, name_idx: 9 }.to_string(), "GETGLOBAL R0 K9");
    assert_eq!(OpCode::SetGlobal { name_idx: 9, src: 1 }.to_string(), "SETGLOBAL K9 R1");
    assert_eq!(OpCode::GetUpVal { dest: 2, upval_idx: 0 }.to_string(), "GETUPVAL R2 U0");
    assert_eq!(OpCode::SetUpVal { upval_idx: 1, src: 2 }.to_string(), "SETUPVAL U1 R2");
    assert_eq!(OpCode::Add { dest: 0, left: 1, right: 2 }.to_string(), "ADD      R0 R1 R2");
    assert_eq!(OpCode::Mod { dest: 0, left: 1, right: 2 }.to_string(), "MOD      R0 R1 R2");
    assert_eq!(OpCode::Concat { dest: 0, left: 1, right: 2 }.to_string(), "CONCAT   R0 R1 R2");
    assert_eq!(OpCode::Ge { dest: 10, left: 11, right: 65535 }.to_string(), "GE       R10 R11 R65535");
    assert_eq!(
        OpCode::UnOp { dest: 0, src: 1, op: UnaryOpType::Len }.to_string(),
        "UNOP     R0 R1 Len"
    );
    assert_eq!(OpCode::Test { reg: 7 }.to_string(), "TEST     R7");
    assert_eq!(OpCode::Jump { offset: 3 }.to_string(), "JUMP     3");
    assert_eq!(OpCode::Jump { offset: -12 }.to_string(), "JUMP     -12");
    assert_eq!(OpCode::Jump { offset: 0 }.to_string(), "JUMP     0");
    assert_eq!(OpCode::Jump { offset: i32::MIN }.to_string(), "JUMP     -2147483648");
    assert_eq!(
        OpCode::NewTable { dest: 1, size_array: 3, size_hash: 0 }.to_string(),
        "NEWTABLE R1 3 0"
    );
    assert_eq!(OpCode::GetTable { dest: 1, table: 2, key: 3 }.to_string(), "GETTABLE R1 R2 R3");
    assert_eq!(OpCode::SetTable { table: 1, key: 2, value: 3 }.to_string(), "SETTABLE R1 R2 R3");
    assert_eq!(OpCode::FnProto { dest: 1, proto_idx: 0 }.to_string(), "FNPROTO  R1 K0");
    assert_eq!(OpCode::Call { func_reg: 2, argc: 1, retc: 1 }.to_string(), "CALL     R2 1 1");
    assert_eq!(OpCode::Push { src: 2 }.to_string(), "PUSH     R2");
    assert_eq!(OpCode::Return { start: 0, count: 1 }.to_string(), "RETURN   R0 1");
    assert_eq!(OpCode::Halt.to_string(), "HALT");
}
