//! Laws of values and conversions: conditions, kinds, and numbers as 32-bit integers.
use vstd::prelude::*;
use vstd::arithmetic::power2::{lemma2_to64, lemma2_to64_rest, lemma_pow2_pos, pow2};
use crate::conv::{bit_and, bit_not, bit_or, bit_xor, shift_left, shift_right, shift_unsigned};
use crate::convert::truthy;
use crate::number::{double_of, infinite, int32, int_pattern, lemma_exact_integer, magnitude, nan, number_le, number_lt, scaled, signed, truncated, uint32, SIGN};
use crate::regexp::compiled;
use crate::store::StoreView;
use crate::value::Value;

verus! {

/// What does not count as true: `undefined`, `null`, `false`, the two zeros,
/// not-a-number, the empty string and the big integer zero. Everything else does.
pub proof fn law_conditions(s: StoreView, v: Value)
    ensures
        !truthy(s, v) <==> match v {
            Value::Undefined => true,
            Value::Null => true,
            Value::Boolean(b) => !b,
            Value::Number(x) => x == 0 || x == SIGN || nan(x),
            Value::String(a) => s.text(a) == Seq::<char>::empty(),
            Value::BigInt(a) => s.text(a) == seq!['0'],
            _ => false,
        },
{
    reveal_strlit("0");
    assert("0"@ =~= seq!['0']);
    match v {
        Value::String(a) => {
            if s.text(a).len() == 0 {
                assert(s.text(a) =~= Seq::<char>::empty());
            }
        },
        _ => {},
    }
}

/// `typeof` tells functions from other objects, counts `null` among these, and tells
/// the kinds of primitives apart.
pub proof fn law_typeof(v: Value)
    ensures
        v.typeof_text() == "function"@ <==> v is Function || v is NativeFunction,
        v.typeof_text() == "undefined"@ <==> v is Undefined,
        v.typeof_text() == "boolean"@ <==> v is Boolean,
        v.typeof_text() == "number"@ <==> v is Number,
        v.typeof_text() == "bigint"@ <==> v is BigInt,
        v.typeof_text() == "string"@ <==> v is String,
        v.typeof_text() == "symbol"@ <==> v is Symbol,
        v is Null || v is Object || v is Array || v is Promise || v is MapRef || v is SetRef || v is Regex || v is WeakMap || v is WeakSet ==> v.typeof_text() == "object"@,
{
    reveal_strlit("function");
    reveal_strlit("undefined");
    reveal_strlit("boolean");
    reveal_strlit("number");
    reveal_strlit("bigint");
    reveal_strlit("string");
    reveal_strlit("symbol");
    reveal_strlit("object");
    assert("function"@.len() == 8 && "undefined"@.len() == 9 && "boolean"@.len() == 7);
    assert("number"@.len() == 6 && "number"@[0] == 'n');
    assert("bigint"@.len() == 6 && "bigint"@[0] == 'b');
    assert("string"@.len() == 6 && "string"@[0] == 's' && "string"@[1] == 't');
    assert("symbol"@.len() == 6 && "symbol"@[0] == 's' && "symbol"@[1] == 'y');
    assert("object"@.len() == 6 && "object"@[0] == 'o');
}

/// The 32-bit integer of a number differs from its integer part by a multiple of two to
/// the power 32, and lies in the range of its type; what is no finite number gives zero.
pub proof fn law_wrapping(x: u64)
    ensures
        0 <= uint32(x) <= 0xffff_ffff,
        -0x8000_0000 <= int32(x) <= 0x7fff_ffff,
        !nan(x) && !infinite(x) ==> (truncated(x) - uint32(x)) % 0x1_0000_0000 == 0 && (truncated(x) - int32(x)) % 0x1_0000_0000 == 0,
        nan(x) || infinite(x) ==> uint32(x) == 0 && int32(x) == 0,
        !nan(x) && !infinite(x) && 0 <= truncated(x) <= 0xffff_ffff ==> uint32(x) == truncated(x),
        !nan(x) && !infinite(x) && -0x8000_0000 <= truncated(x) <= 0x7fff_ffff ==> int32(x) == truncated(x),
{
}

/// A 32-bit integer comes back from the number that stands for it.
pub proof fn law_integers_come_back(n: int)
    requires
        -0x8000_0000 <= n <= 0xffff_ffff,
    ensures
        0 <= int_pattern(n) <= u64::MAX,
        !nan(int_pattern(n) as u64) && !infinite(int_pattern(n) as u64),
        truncated(int_pattern(n) as u64) == n,
        n <= 0x7fff_ffff ==> int32(int_pattern(n) as u64) == n,
        n >= 0 ==> uint32(int_pattern(n) as u64) == n,
{
    let m: nat = if n < 0 { (-n) as nat } else { n as nat };
    lemma_exact_integer(m);
    lemma_pow2_pos(1074);
    let b = int_pattern(n) as u64;
    assert(magnitude(b) == double_of(m));
    assert(scaled(b) == scaled(double_of(m) as u64)) by {
        assert(magnitude(double_of(m) as u64) == magnitude(b));
    }
    vstd::arithmetic::div_mod::lemma_div_by_multiple(m as int, pow2(1074) as int);
    assert(m * pow2(1074) == pow2(1074) * m) by (nonlinear_arith);
    assert(truncated(b) == n);
}

/// The bitwise operators work on the 32-bit integers of their operands: what two
/// operands have in common and what they have together add up to them, what one alone
/// has is the difference, and the complement is what is missing to minus one.
pub proof fn law_bitwise(x: u64, y: u64)
    ensures
        int32(bit_and(x, y)) + int32(bit_or(x, y)) == int32(x) + int32(y),
        int32(bit_xor(x, y)) == int32(bit_or(x, y)) - int32(bit_and(x, y)),
        int32(x) >= 0 && int32(y) >= 0 ==> 0 <= int32(bit_and(x, y)) <= int32(x) && int32(bit_and(x, y)) <= int32(y),
        int32(bit_not(x)) + int32(x) == -1,
{
    let a = int32(x) as i32;
    let b = int32(y) as i32;
    law_integers_come_back((a & b) as int);
    law_integers_come_back((a | b) as int);
    law_integers_come_back((a ^ b) as int);
    law_integers_come_back(-1 - int32(x));
    assert((a & b) as i64 + (a | b) as i64 == a as i64 + b as i64) by (bit_vector);
    assert((a ^ b) as i64 == (a | b) as i64 - (a & b) as i64) by (bit_vector);
    assert(a >= 0 && b >= 0 ==> 0 <= (a & b) && (a & b) <= a && (a & b) <= b) by (bit_vector);
}

/// The shifts go by the lowest five bits of their right operand. To the left a shift
/// multiplies by a power of two while the result fits; to the right it divides by one
/// and rounds down, with the sign or without it.
pub proof fn law_shifts(x: u64, y: u64, k: u32)
    requires
        k == uint32(y) % 32,
    ensures
        int32(x) >= 0 && int32(x) * pow2(k as nat) <= 0x7fff_ffff ==> int32(shift_left(x, y)) == int32(x) * pow2(k as nat),
        uint32(shift_unsigned(x, y)) == uint32(x) / (pow2(k as nat) as int),
        int32(x) >= 0 ==> int32(shift_right(x, y)) == int32(x) / (pow2(k as nat) as int),
        int32(x) < 0 ==> int32(shift_right(x, y)) < 0 && int32(shift_right(x, y)) >= int32(x),
        k == 0 ==> int32(shift_right(x, y)) == int32(x),
{
    let u = uint32(x) as u32;
    let a = int32(x) as i32;
    let m = uint32(y) as u32;
    assert(m & 0x1f == m % 32) by (bit_vector);
    assert(m & 0x1f == k);
    assert(k < 32);
    lemma2_to64();
    lemma2_to64_rest();
    lemma_pow2_pos(k as nat);
    vstd::bits::lemma_u32_shr_is_div(u, k);
    let d = pow2(k as nat) as int;
    assert(0 <= u as int / d <= u) by (nonlinear_arith)
        requires
            d >= 1,
            u >= 0,
    ;
    law_integers_come_back((u >> k) as int);
    assert(shift_unsigned(x, y) == double_of((u >> k) as nat) as u64);
    law_integers_come_back((a >> k) as int);
    if int32(x) >= 0 {
        assert(uint32(x) == int32(x));
        assert(a >= 0 && a == u as i32 && k < 32 ==> (a >> k) as u32 == u >> k && (a >> k) >= 0) by (bit_vector);
    } else {
        assert(a < 0 && k < 32 ==> (a >> k) < 0 && (a >> k) >= a) by (bit_vector);
    }
    assert(k == 0 ==> a >> k == a) by (bit_vector);
    let l = (u << k) as i32;
    law_integers_come_back(l as int);
    assert(shift_left(x, y) == int_pattern(l as int) as u64);
    if int32(x) >= 0 && int32(x) * pow2(k as nat) <= 0x7fff_ffff {
        vstd::bits::lemma_u32_shl_is_mul(u, k);
        let w = u << k;
        assert(w <= 0x7fff_ffff ==> w as i32 as u32 == w && w as i32 >= 0) by (bit_vector);
    }
}

/// Of the flags of a regular expression only those for case, lines and the dot change
/// what it matches: others, their order and their repetition do not.
pub proof fn law_matching_flags(pattern: Seq<char>, a: Seq<char>, b: Seq<char>)
    requires
        a.contains('i') == b.contains('i'),
        a.contains('m') == b.contains('m'),
        a.contains('s') == b.contains('s'),
    ensures
        compiled(pattern, a) == compiled(pattern, b),
{
}

proof fn lemma_signed(n: int)
    requires
        -0x8000_0000 <= n <= 0xffff_ffff,
    ensures
        0 <= int_pattern(n) <= u64::MAX,
        !nan(int_pattern(n) as u64),
        signed(int_pattern(n) as u64) == n * pow2(1074),
{
    let m: nat = if n < 0 { (-n) as nat } else { n as nat };
    lemma_exact_integer(m);
    let b = int_pattern(n) as u64;
    assert(magnitude(b) == double_of(m));
    assert(magnitude(double_of(m) as u64) == magnitude(b));
    assert(scaled(b) == scaled(double_of(m) as u64));
    if n < 0 {
        assert(-((-n) * pow2(1074)) == n * pow2(1074)) by (nonlinear_arith);
    }
}

/// The numbers of integers compare as the integers do.
pub proof fn law_integers_compare(a: int, b: int)
    requires
        -0x8000_0000 <= a <= 0xffff_ffff,
        -0x8000_0000 <= b <= 0xffff_ffff,
    ensures
        number_lt(int_pattern(a) as u64, int_pattern(b) as u64) <==> a < b,
        number_le(int_pattern(a) as u64, int_pattern(b) as u64) <==> a <= b,
        Value::Number(int_pattern(a) as u64).equals(Value::Number(int_pattern(b) as u64)) <==> a == b,
{
    lemma_signed(a);
    lemma_signed(b);
    lemma_pow2_pos(1074);
    let q = pow2(1074) as int;
    assert(a < b ==> a * q < b * q) by (nonlinear_arith)
        requires
            q > 0,
    ;
    assert(b < a ==> b * q < a * q) by (nonlinear_arith)
        requires
            q > 0,
    ;
}

/// What is not a number compares with nothing, not even with itself.
pub proof fn law_not_a_number(x: u64, y: u64)
    requires
        nan(x),
    ensures
        !number_lt(x, y) && !number_lt(y, x) && !number_le(x, y) && !number_le(y, x),
        !Value::Number(x).equals(Value::Number(y)) && !Value::Number(y).equals(Value::Number(x)),
{
}

} // verus!
