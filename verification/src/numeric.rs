//! Integer arithmetic, comparisons and conversions with WebAssembly's two's-complement meaning.
use vstd::prelude::*;
use crate::runtime_error::RuntimeError;
use crate::types::ValueType;
use crate::value::{
    Value, spec_pop_typed, i32_from_stack, i64_from_stack, f32_from_stack, f64_from_stack,
};

verus! {

/// The `i32` congruent to `x` modulo 2^32.
pub open spec fn wrap32(x: int) -> i32 {
    let m = x % 0x1_0000_0000;
    (if m >= 0x8000_0000 { m - 0x1_0000_0000 } else { m }) as i32
}

/// The `i64` congruent to `x` modulo 2^64.
pub open spec fn wrap64(x: int) -> i64 {
    let m = x % 0x1_0000_0000_0000_0000;
    (if m >= 0x8000_0000_0000_0000 { m - 0x1_0000_0000_0000_0000 } else { m }) as i64
}

/// The unsigned reading of an `i32` bit pattern.
pub open spec fn unsigned32(x: i32) -> int {
    if x >= 0 { x as int } else { x + 0x1_0000_0000 }
}

/// The unsigned reading of an `i64` bit pattern.
pub open spec fn unsigned64(x: i64) -> int {
    if x >= 0 { x as int } else { x + 0x1_0000_0000_0000_0000 }
}

pub open spec fn abs(x: int) -> int {
    if x < 0 { -x } else { x }
}

/// Division rounding toward zero.
pub open spec fn trunc_div(a: int, b: int) -> int {
    let q = abs(a) / abs(b);
    if (a < 0) != (b < 0) { -q } else { q }
}

/// The remainder that goes with `trunc_div`: it has the sign of the dividend.
pub open spec fn trunc_rem(a: int, b: int) -> int {
    let m = abs(a) % abs(b);
    if a < 0 { -m } else { m }
}

/// Number of one bits.
pub open spec fn popcount(x: nat) -> nat
    decreases x,
{
    if x == 0 { 0 } else { x % 2 + popcount(x / 2) }
}

pub open spec fn rotl32(x: u32, k: u32) -> u32 {
    if k == 0 { x } else { (x << k) | (x >> (32 - k) as u32) }
}

pub open spec fn rotr32(x: u32, k: u32) -> u32 {
    if k == 0 { x } else { (x >> k) | (x << (32 - k) as u32) }
}

pub open spec fn rotl64(x: u64, k: u64) -> u64 {
    if k == 0 { x } else { (x << k) | (x >> (64 - k) as u64) }
}

pub open spec fn rotr64(x: u64, k: u64) -> u64 {
    if k == 0 { x } else { (x >> k) | (x << (64 - k) as u64) }
}

/// The shift count of a 32-bit shift: the right operand modulo 32.
pub open spec fn count32(r: i32) -> u32 {
    (unsigned32(r) % 32) as u32
}

/// The shift count of a 64-bit shift: the right operand modulo 64.
pub open spec fn count64(r: i64) -> u64 {
    (unsigned64(r) % 64) as u64
}

/// The binary `i32` operators, by opcode.
pub open spec fn spec_eval_i32(l: i32, r: i32, opcode: u8) -> Result<i32, RuntimeError> {
    if opcode == 0x6a {
        Ok(wrap32(l + r))
    } else if opcode == 0x6b {
        Ok(wrap32(l - r))
    } else if opcode == 0x6c {
        Ok(wrap32(l * r))
    } else if opcode == 0x6d {
        if r == 0 {
            Err(RuntimeError::IntegerDivisionByZero)
        } else if l == i32::MIN && r == -1 {
            Err(RuntimeError::IntegerOverflow)
        } else {
            Ok(trunc_div(l as int, r as int) as i32)
        }
    } else if opcode == 0x6e {
        if r == 0 {
            Err(RuntimeError::IntegerDivisionByZero)
        } else {
            Ok(wrap32(unsigned32(l) / unsigned32(r)))
        }
    } else if opcode == 0x6f {
        if r == 0 {
            Err(RuntimeError::IntegerDivisionByZero)
        } else {
            Ok(trunc_rem(l as int, r as int) as i32)
        }
    } else if opcode == 0x70 {
        if r == 0 {
            Err(RuntimeError::IntegerDivisionByZero)
        } else {
            Ok(wrap32(unsigned32(l) % unsigned32(r)))
        }
    } else if opcode == 0x71 {
        Ok(l & r)
    } else if opcode == 0x72 {
        Ok(l | r)
    } else if opcode == 0x73 {
        Ok(l ^ r)
    } else if opcode == 0x74 {
        Ok(((l as u32) << count32(r)) as i32)
    } else if opcode == 0x75 {
        Ok(l >> count32(r))
    } else if opcode == 0x76 {
        Ok(((l as u32) >> count32(r)) as i32)
    } else if opcode == 0x77 {
        Ok(rotl32(l as u32, count32(r)) as i32)
    } else if opcode == 0x78 {
        Ok(rotr32(l as u32, count32(r)) as i32)
    } else {
        Err(RuntimeError::UnsupportedOpcode(opcode))
    }
}

/// The binary `i64` operators, by opcode.
pub open spec fn spec_eval_i64(l: i64, r: i64, opcode: u8) -> Result<i64, RuntimeError> {
    if opcode == 0x7c {
        Ok(wrap64(l + r))
    } else if opcode == 0x7d {
        Ok(wrap64(l - r))
    } else if opcode == 0x7e {
        Ok(wrap64(l * r))
    } else if opcode == 0x7f {
        if r == 0 {
            Err(RuntimeError::IntegerDivisionByZero)
        } else if l == i64::MIN && r == -1 {
            Err(RuntimeError::IntegerOverflow)
        } else {
            Ok(trunc_div(l as int, r as int) as i64)
        }
    } else if opcode == 0x80 {
        if r == 0 {
            Err(RuntimeError::IntegerDivisionByZero)
        } else {
            Ok(wrap64(unsigned64(l) / unsigned64(r)))
        }
    } else if opcode == 0x81 {
        if r == 0 {
            Err(RuntimeError::IntegerDivisionByZero)
        } else {
            Ok(trunc_rem(l as int, r as int) as i64)
        }
    } else if opcode == 0x82 {
        if r == 0 {
            Err(RuntimeError::IntegerDivisionByZero)
        } else {
            Ok(wrap64(unsigned64(l) % unsigned64(r)))
        }
    } else if opcode == 0x83 {
        Ok(l & r)
    } else if opcode == 0x84 {
        Ok(l | r)
    } else if opcode == 0x85 {
        Ok(l ^ r)
    } else if opcode == 0x86 {
        Ok(((l as u64) << count64(r)) as i64)
    } else if opcode == 0x87 {
        Ok(l >> count64(r))
    } else if opcode == 0x88 {
        Ok(((l as u64) >> count64(r)) as i64)
    } else if opcode == 0x89 {
        Ok(rotl64(l as u64, count64(r)) as i64)
    } else if opcode == 0x8a {
        Ok(rotr64(l as u64, count64(r)) as i64)
    } else {
        Err(RuntimeError::UnsupportedOpcode(opcode))
    }
}

/// Two's-complement facts about reinterpreting 32-bit patterns.
pub proof fn lemma_cast32(x: i32, u: u32)
    ensures
        (x as u32) as int == unsigned32(x),
        (u as i32) as int == if u < 0x8000_0000 { u as int } else { u - 0x1_0000_0000 },
        ((x as u32) as i32) == x,
{
    assert((x as u32) as int == if x >= 0 { x as int } else { x + 0x1_0000_0000 }) by (bit_vector);
    assert((u as i32) as int == if u < 0x8000_0000 { u as int } else { u - 0x1_0000_0000 })
        by (bit_vector);
    assert(((x as u32) as i32) == x) by (bit_vector);
}

/// Two's-complement facts about reinterpreting 64-bit patterns.
pub proof fn lemma_cast64(x: i64, u: u64)
    ensures
        (x as u64) as int == unsigned64(x),
        (u as i64) as int == if u < 0x8000_0000_0000_0000 { u as int } else {
            u - 0x1_0000_0000_0000_0000
        },
        ((x as u64) as i64) == x,
{
    assert((x as u64) as int == if x >= 0 { x as int } else { x + 0x1_0000_0000_0000_0000 })
        by (bit_vector);
    assert((u as i64) as int == if u < 0x8000_0000_0000_0000 { u as int } else {
        u - 0x1_0000_0000_0000_0000
    }) by (bit_vector);
    assert(((x as u64) as i64) == x) by (bit_vector);
}

/// Inside two widths of the range, wrapping adds or removes one modulus at most.
proof fn lemma_wrap32_near(x: int)
    requires
        -0x1_0000_0000 <= x < 0x1_0000_0000,
    ensures
        wrap32(x) == if x > i32::MAX {
            (x - 0x1_0000_0000) as i32
        } else if x < i32::MIN {
            (x + 0x1_0000_0000) as i32
        } else {
            x as i32
        },
{
    if x < 0 {
        assert((x + 0x1_0000_0000) % 0x1_0000_0000 == x + 0x1_0000_0000);
        assert(x % 0x1_0000_0000 == x + 0x1_0000_0000);
    } else {
        assert(x % 0x1_0000_0000 == x);
    }
}

proof fn lemma_wrap64_near(x: int)
    requires
        -0x1_0000_0000_0000_0000 <= x < 0x1_0000_0000_0000_0000,
    ensures
        wrap64(x) == if x > i64::MAX {
            (x - 0x1_0000_0000_0000_0000) as i64
        } else if x < i64::MIN {
            (x + 0x1_0000_0000_0000_0000) as i64
        } else {
            x as i64
        },
{
    if x < 0 {
        assert((x + 0x1_0000_0000_0000_0000) % 0x1_0000_0000_0000_0000 == x + 0x1_0000_0000_0000_0000);
        assert(x % 0x1_0000_0000_0000_0000 == x + 0x1_0000_0000_0000_0000);
    } else {
        assert(x % 0x1_0000_0000_0000_0000 == x);
    }
}

pub proof fn lemma_wrap32_of_unsigned(u: u32)
    ensures
        wrap32(u as int) == u as i32,
{
    lemma_cast32(0, u);
}

pub proof fn lemma_wrap64_of_unsigned(u: u64)
    ensures
        wrap64(u as int) == u as i64,
{
    lemma_cast64(0, u);
}

fn shift_count32(r: i32) -> (k: u32)
    ensures
        k == count32(r),
        k < 32,
{
    proof {
        lemma_cast32(r, 0);
    }
    let u = r as u32;
    assert(u & 31 == u % 32) by (bit_vector);
    u & 31
}

fn shift_count64(r: i64) -> (k: u64)
    ensures
        k == count64(r),
        k < 64,
{
    proof {
        lemma_cast64(r, 0);
    }
    let u = r as u64;
    assert(u & 63 == u % 64) by (bit_vector);
    u & 63
}

/// Evaluates a binary `i32` operator; division and remainder by zero and the one
/// overflowing signed division trap.
pub fn eval_i32(lhs: i32, rhs: i32, opcode: u8) -> (r: Result<i32, RuntimeError>)
    ensures
        r == spec_eval_i32(lhs, rhs, opcode),
{
    proof {
        lemma_cast32(lhs, 0);
        lemma_cast32(rhs, 0);
    }
    match opcode {
        0x6a => {
            proof {
                lemma_wrap32_near(lhs + rhs);
            }
            Ok(lhs.wrapping_add(rhs))
        },
        0x6b => {
            proof {
                lemma_wrap32_near(lhs - rhs);
            }
            Ok(lhs.wrapping_sub(rhs))
        },
        0x6c => {
            Ok(lhs.wrapping_mul(rhs))
        },
        0x6d => {
            if rhs == 0 {
                return Err(RuntimeError::IntegerDivisionByZero);
            }
            if lhs == i32::MIN && rhs == -1 {
                return Err(RuntimeError::IntegerOverflow);
            }
            proof {
                let a = abs(lhs as int);
                let b = abs(rhs as int);
                assert(a / b <= a) by (nonlinear_arith)
                    requires
                        a >= 0,
                        b >= 1,
                ;
                if lhs == i32::MIN && rhs < 0 {
                    assert(a / b <= a / 2) by (nonlinear_arith)
                        requires
                            a >= 0,
                            b >= 2,
                    ;
                }
            }
            match lhs.checked_div(rhs) {
                Some(v) => Ok(v),
                None => Err(RuntimeError::IntegerOverflow),
            }
        },
        0x6e => {
            let r = rhs as u32;
            if r == 0 {
                return Err(RuntimeError::IntegerDivisionByZero);
            }
            let q = (lhs as u32) / r;
            proof {
                lemma_wrap32_of_unsigned(q);
            }
            Ok(q as i32)
        },
        0x6f => {
            if rhs == 0 {
                return Err(RuntimeError::IntegerDivisionByZero);
            }
            if lhs == i32::MIN && rhs == -1 {
                Ok(0)
            } else {
                proof {
                    vstd::arithmetic::div_mod::lemma_small_mod(0, abs(rhs as int) as nat);
                }
                match lhs.checked_rem(rhs) {
                    Some(v) => Ok(v),
                    None => Ok(0),
                }
            }
        },
        0x70 => {
            let r = rhs as u32;
            if r == 0 {
                return Err(RuntimeError::IntegerDivisionByZero);
            }
            let m = (lhs as u32) % r;
            proof {
                lemma_wrap32_of_unsigned(m);
            }
            Ok(m as i32)
        },
        0x71 => Ok(lhs & rhs),
        0x72 => Ok(lhs | rhs),
        0x73 => Ok(lhs ^ rhs),
        0x74 => {
            let k = shift_count32(rhs);
            Ok(((lhs as u32) << k) as i32)
        },
        0x75 => {
            let k = shift_count32(rhs);
            Ok(lhs >> k)
        },
        0x76 => {
            let k = shift_count32(rhs);
            Ok(((lhs as u32) >> k) as i32)
        },
        0x77 => {
            let k = shift_count32(rhs);
            let x = lhs as u32;
            if k == 0 {
                Ok(lhs)
            } else {
                Ok(((x << k) | (x >> (32 - k))) as i32)
            }
        },
        0x78 => {
            let k = shift_count32(rhs);
            let x = lhs as u32;
            if k == 0 {
                Ok(lhs)
            } else {
                Ok(((x >> k) | (x << (32 - k))) as i32)
            }
        },
        _ => Err(RuntimeError::UnsupportedOpcode(opcode)),
    }
}

/// Evaluates a binary `i64` operator; division and remainder by zero and the one
/// overflowing signed division trap.
pub fn eval_i64(lhs: i64, rhs: i64, opcode: u8) -> (r: Result<i64, RuntimeError>)
    ensures
        r == spec_eval_i64(lhs, rhs, opcode),
{
    proof {
        lemma_cast64(lhs, 0);
        lemma_cast64(rhs, 0);
    }
    match opcode {
        0x7c => {
            proof {
                lemma_wrap64_near(lhs + rhs);
            }
            Ok(lhs.wrapping_add(rhs))
        },
        0x7d => {
            proof {
                lemma_wrap64_near(lhs - rhs);
            }
            Ok(lhs.wrapping_sub(rhs))
        },
        0x7e => {
            Ok(lhs.wrapping_mul(rhs))
        },
        0x7f => {
            if rhs == 0 {
                return Err(RuntimeError::IntegerDivisionByZero);
            }
            if lhs == i64::MIN && rhs == -1 {
                return Err(RuntimeError::IntegerOverflow);
            }
            proof {
                let a = abs(lhs as int);
                let b = abs(rhs as int);
                assert(a / b <= a) by (nonlinear_arith)
                    requires
                        a >= 0,
                        b >= 1,
                ;
                if lhs == i64::MIN && rhs < 0 {
                    assert(a / b <= a / 2) by (nonlinear_arith)
                        requires
                            a >= 0,
                            b >= 2,
                    ;
                }
            }
            match lhs.checked_div(rhs) {
                Some(v) => Ok(v),
                None => Err(RuntimeError::IntegerOverflow),
            }
        },
        0x80 => {
            let r = rhs as u64;
            if r == 0 {
                return Err(RuntimeError::IntegerDivisionByZero);
            }
            let q = (lhs as u64) / r;
            proof {
                lemma_wrap64_of_unsigned(q);
            }
            Ok(q as i64)
        },
        0x81 => {
            if rhs == 0 {
                return Err(RuntimeError::IntegerDivisionByZero);
            }
            if lhs == i64::MIN && rhs == -1 {
                Ok(0)
            } else {
                proof {
                    vstd::arithmetic::div_mod::lemma_small_mod(0, abs(rhs as int) as nat);
                }
                match lhs.checked_rem(rhs) {
                    Some(v) => Ok(v),
                    None => Ok(0),
                }
            }
        },
        0x82 => {
            let r = rhs as u64;
            if r == 0 {
                return Err(RuntimeError::IntegerDivisionByZero);
            }
            let m = (lhs as u64) % r;
            proof {
                lemma_wrap64_of_unsigned(m);
            }
            Ok(m as i64)
        },
        0x83 => Ok(lhs & rhs),
        0x84 => Ok(lhs | rhs),
        0x85 => Ok(lhs ^ rhs),
        0x86 => {
            let k = shift_count64(rhs);
            Ok(((lhs as u64) << k) as i64)
        },
        0x87 => {
            let k = shift_count64(rhs);
            Ok(lhs >> k)
        },
        0x88 => {
            let k = shift_count64(rhs);
            Ok(((lhs as u64) >> k) as i64)
        },
        0x89 => {
            let k = shift_count64(rhs);
            let x = lhs as u64;
            if k == 0 {
                Ok(lhs)
            } else {
                Ok(((x << k) | (x >> (64 - k))) as i64)
            }
        },
        0x8a => {
            let k = shift_count64(rhs);
            let x = lhs as u64;
            if k == 0 {
                Ok(lhs)
            } else {
                Ok(((x >> k) | (x << (64 - k))) as i64)
            }
        },
        _ => Err(RuntimeError::UnsupportedOpcode(opcode)),
    }
}


/// Number of significant bits: the position of the highest one bit, plus one.
pub open spec fn bit_length(x: nat) -> nat
    decreases x,
{
    if x == 0 { 0 } else { 1 + bit_length(x / 2) }
}

/// Number of zero bits below the lowest one bit, or `width` for zero.
pub open spec fn trailing_zeros(x: nat, width: nat) -> nat
    decreases x,
{
    if x == 0 { width } else if x % 2 == 1 { 0 } else { 1 + trailing_zeros(x / 2, (width - 1) as nat) }
}

proof fn lemma_bit_length_bound(x: nat, w: nat)
    requires
        x < vstd::arithmetic::power2::pow2(w),
    ensures
        bit_length(x) <= w,
    decreases x,
{
    vstd::arithmetic::power2::lemma_pow2_pos(w);
    if x > 0 {
        assert(w > 0) by {
            if w == 0 {
                vstd::arithmetic::power2::lemma2_to64();
            }
        }
        vstd::arithmetic::power2::lemma_pow2_unfold(w);
        lemma_bit_length_bound(x / 2, (w - 1) as nat);
    }
}

proof fn lemma_trailing_zeros_bound(x: nat, w: nat)
    requires
        0 < x,
    ensures
        trailing_zeros(x, w) <= bit_length(x) - 1,
    decreases x,
{
    if x % 2 == 0 {
        lemma_trailing_zeros_bound(x / 2, (w - 1) as nat);
    }
}

proof fn lemma_popcount_bound(x: nat)
    ensures
        popcount(x) <= bit_length(x),
    decreases x,
{
    if x > 0 {
        lemma_popcount_bound(x / 2);
    }
}

/// Counts the significant bits of `x` by halving it.
fn bit_length_of(x: u64) -> (n: u32)
    ensures
        n as nat == bit_length(x as nat),
        n <= 64,
{
    proof {
        vstd::arithmetic::power2::lemma2_to64();
        lemma_bit_length_bound(x as nat, 64);
    }
    let mut y = x;
    let mut n: u32 = 0;
    while y != 0
        invariant
            n as nat + bit_length(y as nat) == bit_length(x as nat),
            bit_length(x as nat) <= 64,
        decreases y,
    {
        y = y / 2;
        n = n + 1;
    }
    n
}

/// Counts the zero bits below the lowest one bit of a nonzero `x`.
fn trailing_zeros_of(x: u64, width: Ghost<nat>) -> (n: u32)
    requires
        x != 0,
    ensures
        n as nat == trailing_zeros(x as nat, width@),
        n < 64,
{
    proof {
        vstd::arithmetic::power2::lemma2_to64();
        lemma_bit_length_bound(x as nat, 64);
        lemma_trailing_zeros_bound(x as nat, width@);
    }
    let mut y = x;
    let mut n: u32 = 0;
    let ghost mut w = width@;
    while y % 2 == 0
        invariant
            y != 0,
            n as nat + trailing_zeros(y as nat, w) == trailing_zeros(x as nat, width@),
            trailing_zeros(x as nat, width@) < 64,
        decreases y,
    {
        proof {
            assert(y as nat % 2 == 0);
        }
        y = y / 2;
        n = n + 1;
        proof {
            w = (w - 1) as nat;
        }
    }
    n
}

/// Counts the one bits of `x`.
fn popcount_of(x: u64) -> (n: u32)
    ensures
        n as nat == popcount(x as nat),
        n <= 64,
{
    proof {
        vstd::arithmetic::power2::lemma2_to64();
        lemma_bit_length_bound(x as nat, 64);
        lemma_popcount_bound(x as nat);
    }
    let mut y = x;
    let mut n: u32 = 0;
    while y != 0
        invariant
            n as nat + popcount(y as nat) == popcount(x as nat),
            popcount(x as nat) <= 64,
        decreases y,
    {
        n = n + (y % 2) as u32;
        y = y / 2;
    }
    n
}

/// The unary integer operators (count leading zeros, trailing zeros, one bits), by opcode.
pub open spec fn spec_unary_int(v: Value, opcode: u8) -> Value {
    if opcode == 0x67 {
        Value::I32((32 - bit_length(unsigned32(v->I32_0) as nat)) as i32)
    } else if opcode == 0x68 {
        Value::I32(trailing_zeros(unsigned32(v->I32_0) as nat, 32) as i32)
    } else if opcode == 0x69 {
        Value::I32(popcount(unsigned32(v->I32_0) as nat) as i32)
    } else if opcode == 0x79 {
        Value::I64((64 - bit_length(unsigned64(v->I64_0) as nat)) as i64)
    } else if opcode == 0x7a {
        Value::I64(trailing_zeros(unsigned64(v->I64_0) as nat, 64) as i64)
    } else {
        Value::I64(popcount(unsigned64(v->I64_0) as nat) as i64)
    }
}

/// The operand type of a unary integer opcode.
pub open spec fn unary_int_type(opcode: u8) -> ValueType {
    if 0x67 <= opcode <= 0x69 { ValueType::I32 } else { ValueType::I64 }
}

pub open spec fn is_unary_int(opcode: u8) -> bool {
    0x67 <= opcode <= 0x69 || 0x79 <= opcode <= 0x7b
}

/// Applies a unary operator to the top of the stack.
pub open spec fn spec_unary_integer(s: Seq<Value>, opcode: u8) -> (Result<(), RuntimeError>, Seq<Value>) {
    if !is_unary_int(opcode) {
        (Err(RuntimeError::UnsupportedOpcode(opcode)), s)
    } else {
        let (r, s1) = spec_pop_typed(s, unary_int_type(opcode));
        match r {
            Ok(v) => (Ok(()), s1.push(spec_unary_int(v, opcode))),
            Err(e) => (Err(e), s1),
        }
    }
}

pub fn unary_integer(stack: &mut Vec<Value>, opcode: u8) -> (r: Result<(), RuntimeError>)
    ensures
        (r, final(stack)@) == spec_unary_integer(old(stack)@, opcode),
{
    let value = match opcode {
        0x67 | 0x68 | 0x69 => {
            let v = i32_from_stack(stack)?;
            proof {
                lemma_cast32(v, 0);
            }
            let x = (v as u32) as u64;
            proof {
                vstd::arithmetic::power2::lemma2_to64();
                lemma_bit_length_bound(x as nat, 32);
                lemma_popcount_bound(x as nat);
            }
            if opcode == 0x67 {
                Value::I32((32 - bit_length_of(x)) as i32)
            } else if opcode == 0x68 {
                if x == 0 {
                    Value::I32(32)
                } else {
                    Value::I32(trailing_zeros_of(x, Ghost(32)) as i32)
                }
            } else {
                Value::I32(popcount_of(x) as i32)
            }
        },
        0x79 | 0x7a | 0x7b => {
            let v = i64_from_stack(stack)?;
            proof {
                lemma_cast64(v, 0);
            }
            let x = v as u64;
            if opcode == 0x79 {
                Value::I64((64 - bit_length_of(x)) as i64)
            } else if opcode == 0x7a {
                if x == 0 {
                    Value::I64(64)
                } else {
                    Value::I64(trailing_zeros_of(x, Ghost(64)) as i64)
                }
            } else {
                Value::I64(popcount_of(x) as i64)
            }
        },
        _ => return Err(RuntimeError::UnsupportedOpcode(opcode)),
    };
    stack.push(value);
    Ok(())
}


/// Pops the right and then the left operand of a binary operator.
pub open spec fn spec_pop_pair(s: Seq<Value>, ty: ValueType) -> (
    Result<(Value, Value), RuntimeError>,
    Seq<Value>,
) {
    let (r1, s1) = spec_pop_typed(s, ty);
    match r1 {
        Err(e) => (Err(e), s1),
        Ok(rhs) => {
            let (r2, s2) = spec_pop_typed(s1, ty);
            match r2 {
                Err(e) => (Err(e), s2),
                Ok(lhs) => (Ok((lhs, rhs)), s2),
            }
        },
    }
}

/// A binary integer operator on the stack: two operands of the same width in,
/// one result out; a trap leaves the operands popped.
pub open spec fn spec_binary_integer(s: Seq<Value>, opcode: u8) -> (Result<(), RuntimeError>, Seq<Value>) {
    if 0x6a <= opcode <= 0x78 {
        let (r, s1) = spec_pop_pair(s, ValueType::I32);
        match r {
            Err(e) => (Err(e), s1),
            Ok((l, rv)) => match spec_eval_i32(l->I32_0, rv->I32_0, opcode) {
                Ok(v) => (Ok(()), s1.push(Value::I32(v))),
                Err(e) => (Err(e), s1),
            },
        }
    } else if 0x7c <= opcode <= 0x8a {
        let (r, s1) = spec_pop_pair(s, ValueType::I64);
        match r {
            Err(e) => (Err(e), s1),
            Ok((l, rv)) => match spec_eval_i64(l->I64_0, rv->I64_0, opcode) {
                Ok(v) => (Ok(()), s1.push(Value::I64(v))),
                Err(e) => (Err(e), s1),
            },
        }
    } else {
        (Err(RuntimeError::UnsupportedOpcode(opcode)), s)
    }
}

pub fn binary_integer(stack: &mut Vec<Value>, opcode: u8) -> (r: Result<(), RuntimeError>)
    ensures
        (r, final(stack)@) == spec_binary_integer(old(stack)@, opcode),
{
    let value = match opcode {
        0x6a..=0x78 => {
            let rhs = i32_from_stack(stack)?;
            let lhs = i32_from_stack(stack)?;
            Value::I32(eval_i32(lhs, rhs, opcode)?)
        },
        0x7c..=0x8a => {
            let rhs = i64_from_stack(stack)?;
            let lhs = i64_from_stack(stack)?;
            Value::I64(eval_i64(lhs, rhs, opcode)?)
        },
        _ => return Err(RuntimeError::UnsupportedOpcode(opcode)),
    };
    stack.push(value);
    Ok(())
}

/// The `i32` comparisons other than `eqz`, by opcode.
pub open spec fn spec_cmp_i32(l: i32, r: i32, opcode: u8) -> Result<bool, RuntimeError> {
    if opcode == 0x46 {
        Ok(l == r)
    } else if opcode == 0x47 {
        Ok(l != r)
    } else if opcode == 0x48 {
        Ok(l < r)
    } else if opcode == 0x49 {
        Ok(unsigned32(l) < unsigned32(r))
    } else if opcode == 0x4a {
        Ok(l > r)
    } else if opcode == 0x4b {
        Ok(unsigned32(l) > unsigned32(r))
    } else if opcode == 0x4c {
        Ok(l <= r)
    } else if opcode == 0x4d {
        Ok(unsigned32(l) <= unsigned32(r))
    } else if opcode == 0x4e {
        Ok(l >= r)
    } else if opcode == 0x4f {
        Ok(unsigned32(l) >= unsigned32(r))
    } else {
        Err(RuntimeError::UnsupportedOpcode(opcode))
    }
}

/// The `i64` comparisons other than `eqz`, by opcode.
pub open spec fn spec_cmp_i64(l: i64, r: i64, opcode: u8) -> Result<bool, RuntimeError> {
    if opcode == 0x51 {
        Ok(l == r)
    } else if opcode == 0x52 {
        Ok(l != r)
    } else if opcode == 0x53 {
        Ok(l < r)
    } else if opcode == 0x54 {
        Ok(unsigned64(l) < unsigned64(r))
    } else if opcode == 0x55 {
        Ok(l > r)
    } else if opcode == 0x56 {
        Ok(unsigned64(l) > unsigned64(r))
    } else if opcode == 0x57 {
        Ok(l <= r)
    } else if opcode == 0x58 {
        Ok(unsigned64(l) <= unsigned64(r))
    } else if opcode == 0x59 {
        Ok(l >= r)
    } else if opcode == 0x5a {
        Ok(unsigned64(l) >= unsigned64(r))
    } else {
        Err(RuntimeError::UnsupportedOpcode(opcode))
    }
}

/// A truth value as an `i32`.
pub open spec fn bool_value(b: bool) -> Value {
    Value::I32(if b { 1 } else { 0 })
}

/// An integer comparison on the stack (`eqz` pops one operand, the others two) and
/// its `i32` truth value pushed back.
pub open spec fn spec_compare(s: Seq<Value>, opcode: u8, wide: bool) -> (Result<(), RuntimeError>, Seq<Value>) {
    let ty = if wide { ValueType::I64 } else { ValueType::I32 };
    let eqz = if wide { opcode == 0x50 } else { opcode == 0x45 };
    if eqz {
        let (r, s1) = spec_pop_typed(s, ty);
        match r {
            Err(e) => (Err(e), s1),
            Ok(v) => (Ok(()), s1.push(bool_value(if wide { v->I64_0 == 0 } else { v->I32_0 == 0 }))),
        }
    } else {
        let (r, s1) = spec_pop_pair(s, ty);
        match r {
            Err(e) => (Err(e), s1),
            Ok((l, rv)) => {
                let c = if wide {
                    spec_cmp_i64(l->I64_0, rv->I64_0, opcode)
                } else {
                    spec_cmp_i32(l->I32_0, rv->I32_0, opcode)
                };
                match c {
                    Ok(b) => (Ok(()), s1.push(bool_value(b))),
                    Err(e) => (Err(e), s1),
                }
            },
        }
    }
}

pub fn compare_i32(stack: &mut Vec<Value>, opcode: u8) -> (r: Result<(), RuntimeError>)
    ensures
        (r, final(stack)@) == spec_compare(old(stack)@, opcode, false),
{
    if opcode == 0x45 {
        let value = i32_from_stack(stack)?;
        stack.push(Value::I32(if value == 0 { 1 } else { 0 }));
        return Ok(());
    }
    let rhs = i32_from_stack(stack)?;
    let lhs = i32_from_stack(stack)?;
    proof {
        lemma_cast32(lhs, 0);
        lemma_cast32(rhs, 0);
    }
    let result = match opcode {
        0x46 => lhs == rhs,
        0x47 => lhs != rhs,
        0x48 => lhs < rhs,
        0x49 => (lhs as u32) < (rhs as u32),
        0x4a => lhs > rhs,
        0x4b => (lhs as u32) > (rhs as u32),
        0x4c => lhs <= rhs,
        0x4d => (lhs as u32) <= (rhs as u32),
        0x4e => lhs >= rhs,
        0x4f => (lhs as u32) >= (rhs as u32),
        _ => return Err(RuntimeError::UnsupportedOpcode(opcode)),
    };
    stack.push(Value::I32(if result { 1 } else { 0 }));
    Ok(())
}

pub fn compare_i64(stack: &mut Vec<Value>, opcode: u8) -> (r: Result<(), RuntimeError>)
    ensures
        (r, final(stack)@) == spec_compare(old(stack)@, opcode, true),
{
    if opcode == 0x50 {
        let value = i64_from_stack(stack)?;
        stack.push(Value::I32(if value == 0 { 1 } else { 0 }));
        return Ok(());
    }
    let rhs = i64_from_stack(stack)?;
    let lhs = i64_from_stack(stack)?;
    proof {
        lemma_cast64(lhs, 0);
        lemma_cast64(rhs, 0);
    }
    let result = match opcode {
        0x51 => lhs == rhs,
        0x52 => lhs != rhs,
        0x53 => lhs < rhs,
        0x54 => (lhs as u64) < (rhs as u64),
        0x55 => lhs > rhs,
        0x56 => (lhs as u64) > (rhs as u64),
        0x57 => lhs <= rhs,
        0x58 => (lhs as u64) <= (rhs as u64),
        0x59 => lhs >= rhs,
        0x5a => (lhs as u64) >= (rhs as u64),
        _ => return Err(RuntimeError::UnsupportedOpcode(opcode)),
    };
    stack.push(Value::I32(if result { 1 } else { 0 }));
    Ok(())
}

proof fn lemma_wrap_i64_to_i32(v: i64)
    ensures
        (v as i32) == wrap32(v as int),
{
    let u = v as u64;
    lemma_cast64(v, 0);
    assert((v as i32) == (((v as u64) as u32) as i32)) by (bit_vector);
    assert(((u as u32) as u64) == u % 0x1_0000_0000) by (bit_vector);
    lemma_cast32(0, u as u32);
    vstd::arithmetic::div_mod::lemma_mod_multiples_vanish(
        if v < 0 { 0x1_0000_0000 } else { 0 },
        v as int,
        0x1_0000_0000,
    );
}

/// The conversions that only move integer bits: wrapping, sign or zero extension, and the
/// reinterpretations between floating-point bit patterns and integers.
pub open spec fn is_bit_conversion(opcode: u8) -> bool {
    opcode == 0xa7 || opcode == 0xac || opcode == 0xad || 0xbc <= opcode <= 0xbf
}

pub open spec fn conversion_source(opcode: u8) -> ValueType {
    if opcode == 0xa7 || opcode == 0xbf {
        ValueType::I64
    } else if opcode == 0xac || opcode == 0xad || opcode == 0xbe {
        ValueType::I32
    } else if opcode == 0xbc {
        ValueType::F32
    } else {
        ValueType::F64
    }
}

pub open spec fn spec_convert_bits(v: Value, opcode: u8) -> Value {
    if opcode == 0xa7 {
        Value::I32(wrap32(v->I64_0 as int))
    } else if opcode == 0xac {
        Value::I64(v->I32_0 as i64)
    } else if opcode == 0xad {
        Value::I64(unsigned32(v->I32_0) as i64)
    } else if opcode == 0xbc {
        Value::I32(v->F32_0 as i32)
    } else if opcode == 0xbd {
        Value::I64(v->F64_0 as i64)
    } else if opcode == 0xbe {
        Value::F32(v->I32_0 as u32)
    } else {
        Value::F64(v->I64_0 as u64)
    }
}

pub open spec fn spec_convert(s: Seq<Value>, opcode: u8) -> (Result<(), RuntimeError>, Seq<Value>) {
    if !is_bit_conversion(opcode) {
        (Err(RuntimeError::UnsupportedOpcode(opcode)), s)
    } else {
        let (r, s1) = spec_pop_typed(s, conversion_source(opcode));
        match r {
            Ok(v) => (Ok(()), s1.push(spec_convert_bits(v, opcode))),
            Err(e) => (Err(e), s1),
        }
    }
}

/// Applies one of the integer-bit conversions to the top of the stack.
pub fn convert(stack: &mut Vec<Value>, opcode: u8) -> (r: Result<(), RuntimeError>)
    ensures
        (r, final(stack)@) == spec_convert(old(stack)@, opcode),
{
    let value = match opcode {
        0xa7 => {
            let v = i64_from_stack(stack)?;
            proof {
                lemma_wrap_i64_to_i32(v);
            }
            Value::I32(v as i32)
        },
        0xac => Value::I64(i32_from_stack(stack)? as i64),
        0xad => {
            let v = i32_from_stack(stack)?;
            proof {
                lemma_cast32(v, 0);
            }
            Value::I64((v as u32) as i64)
        },
        0xbc => Value::I32(f32_from_stack(stack)? as i32),
        0xbd => Value::I64(f64_from_stack(stack)? as i64),
        0xbe => Value::F32(i32_from_stack(stack)? as u32),
        0xbf => Value::F64(i64_from_stack(stack)? as u64),
        _ => return Err(RuntimeError::UnsupportedOpcode(opcode)),
    };
    stack.push(value);
    Ok(())
}

/// The sign-extension operators: each keeps the low 8, 16 or 32 bits of an integer and
/// extends their top bit through the rest of the same width.
pub open spec fn is_sign_extension(opcode: u8) -> bool {
    0xc0 <= opcode <= 0xc4
}

pub open spec fn spec_extend_bits(v: Value, opcode: u8) -> Value {
    if opcode == 0xc0 {
        Value::I32((v->I32_0 as i8) as i32)
    } else if opcode == 0xc1 {
        Value::I32((v->I32_0 as i16) as i32)
    } else if opcode == 0xc2 {
        Value::I64((v->I64_0 as i8) as i64)
    } else if opcode == 0xc3 {
        Value::I64((v->I64_0 as i16) as i64)
    } else {
        Value::I64((v->I64_0 as i32) as i64)
    }
}

pub open spec fn spec_sign_extend(s: Seq<Value>, opcode: u8) -> (Result<(), RuntimeError>, Seq<Value>) {
    if !is_sign_extension(opcode) {
        (Err(RuntimeError::UnsupportedOpcode(opcode)), s)
    } else {
        let ty = if opcode <= 0xc1 { ValueType::I32 } else { ValueType::I64 };
        let (r, s1) = spec_pop_typed(s, ty);
        match r {
            Ok(v) => (Ok(()), s1.push(spec_extend_bits(v, opcode))),
            Err(e) => (Err(e), s1),
        }
    }
}

/// Applies one of the sign-extension operators to the top of the stack.
pub fn sign_extend(stack: &mut Vec<Value>, opcode: u8) -> (r: Result<(), RuntimeError>)
    ensures
        (r, final(stack)@) == spec_sign_extend(old(stack)@, opcode),
{
    let value = match opcode {
        0xc0 => Value::I32((i32_from_stack(stack)? as i8) as i32),
        0xc1 => Value::I32((i32_from_stack(stack)? as i16) as i32),
        0xc2 => Value::I64((i64_from_stack(stack)? as i8) as i64),
        0xc3 => Value::I64((i64_from_stack(stack)? as i16) as i64),
        0xc4 => Value::I64((i64_from_stack(stack)? as i32) as i64),
        _ => return Err(RuntimeError::UnsupportedOpcode(opcode)),
    };
    stack.push(value);
    Ok(())
}

pub const F32_SIGN: u32 = 0x8000_0000;

pub const F64_SIGN: u64 = 0x8000_0000_0000_0000;

/// The sign-bit operators on floating-point bit patterns: `abs` clears the sign bit,
/// `neg` flips it, and `copysign` takes the magnitude of the left operand and the sign
/// of the right one. None of them looks at the other bits, NaN payloads included.
pub open spec fn is_sign_op(opcode: u8) -> bool {
    opcode == 0x8b || opcode == 0x8c || opcode == 0x98 || opcode == 0x99 || opcode == 0x9a
        || opcode == 0xa6
}

pub open spec fn spec_sign_op(s: Seq<Value>, opcode: u8) -> (Result<(), RuntimeError>, Seq<Value>) {
    if opcode == 0x8b || opcode == 0x8c {
        let (r, s1) = spec_pop_typed(s, ValueType::F32);
        match r {
            Err(e) => (Err(e), s1),
            Ok(v) => (Ok(()), s1.push(Value::F32(
                if opcode == 0x8b { v->F32_0 & !F32_SIGN } else { v->F32_0 ^ F32_SIGN },
            ))),
        }
    } else if opcode == 0x99 || opcode == 0x9a {
        let (r, s1) = spec_pop_typed(s, ValueType::F64);
        match r {
            Err(e) => (Err(e), s1),
            Ok(v) => (Ok(()), s1.push(Value::F64(
                if opcode == 0x99 { v->F64_0 & !F64_SIGN } else { v->F64_0 ^ F64_SIGN },
            ))),
        }
    } else if opcode == 0x98 {
        let (r, s1) = spec_pop_pair(s, ValueType::F32);
        match r {
            Err(e) => (Err(e), s1),
            Ok((l, rv)) => (Ok(()), s1.push(Value::F32((l->F32_0 & !F32_SIGN) | (rv->F32_0 & F32_SIGN)))),
        }
    } else if opcode == 0xa6 {
        let (r, s1) = spec_pop_pair(s, ValueType::F64);
        match r {
            Err(e) => (Err(e), s1),
            Ok((l, rv)) => (Ok(()), s1.push(Value::F64((l->F64_0 & !F64_SIGN) | (rv->F64_0 & F64_SIGN)))),
        }
    } else {
        (Err(RuntimeError::UnsupportedOpcode(opcode)), s)
    }
}

pub fn sign_op(stack: &mut Vec<Value>, opcode: u8) -> (r: Result<(), RuntimeError>)
    ensures
        (r, final(stack)@) == spec_sign_op(old(stack)@, opcode),
{
    let value = match opcode {
        0x8b => Value::F32(f32_from_stack(stack)? & !F32_SIGN),
        0x8c => Value::F32(f32_from_stack(stack)? ^ F32_SIGN),
        0x99 => Value::F64(f64_from_stack(stack)? & !F64_SIGN),
        0x9a => Value::F64(f64_from_stack(stack)? ^ F64_SIGN),
        0x98 => {
            let rhs = f32_from_stack(stack)?;
            let lhs = f32_from_stack(stack)?;
            Value::F32((lhs & !F32_SIGN) | (rhs & F32_SIGN))
        },
        0xa6 => {
            let rhs = f64_from_stack(stack)?;
            let lhs = f64_from_stack(stack)?;
            Value::F64((lhs & !F64_SIGN) | (rhs & F64_SIGN))
        },
        _ => return Err(RuntimeError::UnsupportedOpcode(opcode)),
    };
    stack.push(value);
    Ok(())
}


/// `i64.shr_u` is a logical shift: the result, read as unsigned, is the unsigned reading of
/// the left operand divided by two to the power of the shift count (the right operand
/// modulo 64), rounding down; zeros come in from the top, so any nonzero count gives a
/// non-negative result.
pub proof fn law_i64_shr_u_divides(l: i64, r: i64)
    ensures
        spec_eval_i64(l, r, 0x88) is Ok,
        unsigned64(spec_eval_i64(l, r, 0x88)->Ok_0) == unsigned64(l) / (vstd::arithmetic::power2::pow2(
            (unsigned64(r) % 64) as nat,
        ) as int),
        unsigned64(r) % 64 != 0 ==> spec_eval_i64(l, r, 0x88)->Ok_0 >= 0,
{
    lemma_cast64(l, 0);
    lemma_cast64(r, 0);
    let u = l as u64;
    let k = count64(r);
    vstd::bits::lemma_u64_shr_is_div(u, k);
    let y = u >> k;
    let d = vstd::arithmetic::power2::pow2(k as nat);
    vstd::arithmetic::power2::lemma_pow2_pos(k as nat);
    lemma_cast64(0, y);
    if k != 0 {
        vstd::arithmetic::power2::lemma2_to64();
        if k > 1 {
            vstd::arithmetic::power2::lemma_pow2_strictly_increases(1, k as nat);
        }
        assert((u as nat) / d <= (u as nat) / 2) by (nonlinear_arith)
            requires
                d >= 2,
        {
            vstd::arithmetic::div_mod::lemma_div_is_ordered_by_denominator(u as int, 2, d as int);
        }
    }
}

/// `i32.shr_u` is a logical shift: the result, read as unsigned, is the unsigned reading of
/// the left operand divided by two to the power of the shift count (the right operand
/// modulo 32), rounding down; any nonzero count gives a non-negative result.
pub proof fn law_i32_shr_u_divides(l: i32, r: i32)
    ensures
        spec_eval_i32(l, r, 0x76) is Ok,
        unsigned32(spec_eval_i32(l, r, 0x76)->Ok_0) == unsigned32(l) / (vstd::arithmetic::power2::pow2(
            (unsigned32(r) % 32) as nat,
        ) as int),
        unsigned32(r) % 32 != 0 ==> spec_eval_i32(l, r, 0x76)->Ok_0 >= 0,
{
    lemma_cast32(l, 0);
    lemma_cast32(r, 0);
    let u = l as u32;
    let k = count32(r);
    vstd::bits::lemma_u32_shr_is_div(u, k);
    let y = u >> k;
    let d = vstd::arithmetic::power2::pow2(k as nat);
    vstd::arithmetic::power2::lemma_pow2_pos(k as nat);
    lemma_cast32(0, y);
    if k != 0 {
        vstd::arithmetic::power2::lemma2_to64();
        if k > 1 {
            vstd::arithmetic::power2::lemma_pow2_strictly_increases(1, k as nat);
        }
        assert((u as nat) / d <= (u as nat) / 2) by (nonlinear_arith)
            requires
                d >= 2,
        {
            vstd::arithmetic::div_mod::lemma_div_is_ordered_by_denominator(u as int, 2, d as int);
        }
    }
}

/// The unsigned `i64` comparisons order bit patterns as unsigned numbers: two operands of
/// the same sign compare as they do signed, and a negative pattern lies above every
/// non-negative one. Each unsigned comparison is the mirror or the negation of another.
pub proof fn law_i64_unsigned_order(l: i64, r: i64)
    ensures
        spec_cmp_i64(l, r, 0x54) == Ok::<bool, RuntimeError>(if (l < 0) == (r < 0) { l < r } else { r < 0 }),
        spec_cmp_i64(l, r, 0x56) == Ok::<bool, RuntimeError>(if (l < 0) == (r < 0) { l > r } else { l < 0 }),
        spec_cmp_i64(l, r, 0x58) == Ok::<bool, RuntimeError>(if (l < 0) == (r < 0) { l <= r } else { r < 0 }),
        spec_cmp_i64(l, r, 0x5a) == Ok::<bool, RuntimeError>(if (l < 0) == (r < 0) { l >= r } else { l < 0 }),
        spec_cmp_i64(l, r, 0x5a)->Ok_0 == spec_cmp_i64(r, l, 0x58)->Ok_0,
        spec_cmp_i64(l, r, 0x5a)->Ok_0 == !spec_cmp_i64(l, r, 0x54)->Ok_0,
        spec_cmp_i64(l, r, 0x56)->Ok_0 == spec_cmp_i64(r, l, 0x54)->Ok_0,
{
}

/// The unsigned `i32` comparisons order bit patterns as unsigned numbers: two operands of
/// the same sign compare as they do signed, and a negative pattern lies above every
/// non-negative one. Each unsigned comparison is the mirror or the negation of another.
pub proof fn law_i32_unsigned_order(l: i32, r: i32)
    ensures
        spec_cmp_i32(l, r, 0x49) == Ok::<bool, RuntimeError>(if (l < 0) == (r < 0) { l < r } else { r < 0 }),
        spec_cmp_i32(l, r, 0x4b) == Ok::<bool, RuntimeError>(if (l < 0) == (r < 0) { l > r } else { l < 0 }),
        spec_cmp_i32(l, r, 0x4d) == Ok::<bool, RuntimeError>(if (l < 0) == (r < 0) { l <= r } else { r < 0 }),
        spec_cmp_i32(l, r, 0x4f) == Ok::<bool, RuntimeError>(if (l < 0) == (r < 0) { l >= r } else { l < 0 }),
        spec_cmp_i32(l, r, 0x4f)->Ok_0 == spec_cmp_i32(r, l, 0x4d)->Ok_0,
        spec_cmp_i32(l, r, 0x4f)->Ok_0 == !spec_cmp_i32(l, r, 0x49)->Ok_0,
        spec_cmp_i32(l, r, 0x4b)->Ok_0 == spec_cmp_i32(r, l, 0x49)->Ok_0,
{
}

/// The signed comparisons agree with the unsigned ones exactly when the operands have the
/// same sign, and disagree otherwise.
pub proof fn law_i64_signed_and_unsigned_order(l: i64, r: i64)
    ensures
        (spec_cmp_i64(l, r, 0x53) == spec_cmp_i64(l, r, 0x54)) <==> ((l < 0) == (r < 0)),
        (spec_cmp_i64(l, r, 0x59) == spec_cmp_i64(l, r, 0x5a)) <==> ((l < 0) == (r < 0)),
{
}


/// The unsigned reading of a wrapped 64-bit result is the number modulo 2^64.
proof fn lemma_unsigned_wrap64(v: int)
    ensures
        unsigned64(wrap64(v)) == v % 0x1_0000_0000_0000_0000,
{
}

/// The unsigned reading of a wrapped 32-bit result is the number modulo 2^32.
proof fn lemma_unsigned_wrap32(v: int)
    ensures
        unsigned32(wrap32(v)) == v % 0x1_0000_0000,
{
}

/// A bit pattern's unsigned reading is congruent to its signed one.
proof fn lemma_unsigned64_congruent(x: i64)
    ensures
        unsigned64(x) % 0x1_0000_0000_0000_0000 == (x as int) % 0x1_0000_0000_0000_0000,
        0 <= unsigned64(x) < 0x1_0000_0000_0000_0000,
{
    vstd::arithmetic::div_mod::lemma_mod_add_multiples_vanish(x as int, 0x1_0000_0000_0000_0000);
}

proof fn lemma_unsigned32_congruent(x: i32)
    ensures
        unsigned32(x) % 0x1_0000_0000 == (x as int) % 0x1_0000_0000,
        0 <= unsigned32(x) < 0x1_0000_0000,
{
    vstd::arithmetic::div_mod::lemma_mod_add_multiples_vanish(x as int, 0x1_0000_0000);
}

/// Truncating division and its remainder: the quotient times the divisor plus the
/// remainder is the dividend, the remainder is smaller than the divisor in magnitude and
/// has the dividend's sign, and the quotient is no larger in magnitude than the dividend
/// (at most half of it for a divisor of magnitude two or more).
proof fn lemma_trunc_div_rem(a: int, b: int)
    requires
        b != 0,
    ensures
        trunc_div(a, b) * b + trunc_rem(a, b) == a,
        abs(trunc_rem(a, b)) < abs(b),
        trunc_rem(a, b) == 0 || ((trunc_rem(a, b) < 0) == (a < 0)),
        abs(trunc_div(a, b)) <= abs(a),
        abs(b) >= 2 ==> 2 * abs(trunc_div(a, b)) <= abs(a),
{
    let x = abs(a);
    let y = abs(b);
    let q = x / y;
    let m = x % y;
    vstd::arithmetic::div_mod::lemma_fundamental_div_mod(x, y);
    assert(0 <= m < y);
    vstd::arithmetic::div_mod::lemma_div_is_ordered_by_denominator(x, 1, y);
    assert(x / 1 == x);
    assert(q >= 0) by (nonlinear_arith)
        requires
            x == y * q + m,
            0 <= m < y,
            x >= 0,
    ;
    if y >= 2 {
        assert(2 * q <= x) by (nonlinear_arith)
            requires
                x == y * q + m,
                0 <= m,
                y >= 2,
                q >= 0,
        ;
    }
    assert(trunc_div(a, b) * b + trunc_rem(a, b) == a) by (nonlinear_arith)
        requires
            x == y * q + m,
            x == abs(a),
            y == abs(b),
            trunc_div(a, b) == (if (a < 0) != (b < 0) { -q } else { q }),
            trunc_rem(a, b) == (if a < 0 { -m } else { m }),
    ;
}

/// Addition, subtraction and multiplication of `i64` wrap: the result read as unsigned is
/// the exact result on the unsigned readings, modulo 2^64.
pub proof fn law_i64_wrapping_arithmetic(l: i64, r: i64)
    ensures
        spec_eval_i64(l, r, 0x7c) matches Ok(x) && unsigned64(x) == (unsigned64(l) + unsigned64(r))
            % 0x1_0000_0000_0000_0000,
        spec_eval_i64(l, r, 0x7d) matches Ok(x) && unsigned64(x) == (unsigned64(l) - unsigned64(r))
            % 0x1_0000_0000_0000_0000,
        spec_eval_i64(l, r, 0x7e) matches Ok(x) && unsigned64(x) == (unsigned64(l) * unsigned64(r))
            % 0x1_0000_0000_0000_0000,
{
    let m: int = 0x1_0000_0000_0000_0000;
    lemma_unsigned64_congruent(l);
    lemma_unsigned64_congruent(r);
    lemma_unsigned_wrap64(l + r);
    lemma_unsigned_wrap64(l - r);
    lemma_unsigned_wrap64(l * r);
    vstd::arithmetic::div_mod::lemma_add_mod_noop(l as int, r as int, m);
    vstd::arithmetic::div_mod::lemma_add_mod_noop(unsigned64(l), unsigned64(r), m);
    vstd::arithmetic::div_mod::lemma_sub_mod_noop(l as int, r as int, m);
    vstd::arithmetic::div_mod::lemma_sub_mod_noop(unsigned64(l), unsigned64(r), m);
    vstd::arithmetic::div_mod::lemma_mul_mod_noop(l as int, r as int, m);
    vstd::arithmetic::div_mod::lemma_mul_mod_noop(unsigned64(l), unsigned64(r), m);
}

/// Addition, subtraction and multiplication of `i32` wrap: the result read as unsigned is
/// the exact result on the unsigned readings, modulo 2^32.
pub proof fn law_i32_wrapping_arithmetic(l: i32, r: i32)
    ensures
        spec_eval_i32(l, r, 0x6a) matches Ok(x) && unsigned32(x) == (unsigned32(l) + unsigned32(r)) % 0x1_0000_0000,
        spec_eval_i32(l, r, 0x6b) matches Ok(x) && unsigned32(x) == (unsigned32(l) - unsigned32(r)) % 0x1_0000_0000,
        spec_eval_i32(l, r, 0x6c) matches Ok(x) && unsigned32(x) == (unsigned32(l) * unsigned32(r)) % 0x1_0000_0000,
{
    let m: int = 0x1_0000_0000;
    lemma_unsigned32_congruent(l);
    lemma_unsigned32_congruent(r);
    lemma_unsigned_wrap32(l + r);
    lemma_unsigned_wrap32(l - r);
    lemma_unsigned_wrap32(l * r);
    vstd::arithmetic::div_mod::lemma_add_mod_noop(l as int, r as int, m);
    vstd::arithmetic::div_mod::lemma_add_mod_noop(unsigned32(l), unsigned32(r), m);
    vstd::arithmetic::div_mod::lemma_sub_mod_noop(l as int, r as int, m);
    vstd::arithmetic::div_mod::lemma_sub_mod_noop(unsigned32(l), unsigned32(r), m);
    vstd::arithmetic::div_mod::lemma_mul_mod_noop(l as int, r as int, m);
    vstd::arithmetic::div_mod::lemma_mul_mod_noop(unsigned32(l), unsigned32(r), m);
}

/// Unsigned `i64` division and remainder: by zero both trap; otherwise, on the unsigned
/// readings, the quotient times the divisor plus the remainder is the dividend and the
/// remainder is below the divisor.
pub proof fn law_i64_unsigned_division(l: i64, r: i64)
    ensures
        r == 0 ==> spec_eval_i64(l, r, 0x80) == Err::<i64, RuntimeError>(RuntimeError::IntegerDivisionByZero)
            && spec_eval_i64(l, r, 0x82) == Err::<i64, RuntimeError>(RuntimeError::IntegerDivisionByZero),
        r != 0 ==> (spec_eval_i64(l, r, 0x80) matches Ok(q) && spec_eval_i64(l, r, 0x82) matches Ok(m)
            && unsigned64(q) * unsigned64(r) + unsigned64(m) == unsigned64(l) && unsigned64(m) < unsigned64(r)),
{
    if r != 0 {
        let a = unsigned64(l);
        let b = unsigned64(r);
        lemma_unsigned64_congruent(l);
        lemma_unsigned64_congruent(r);
        vstd::arithmetic::div_mod::lemma_fundamental_div_mod(a, b);
        assert(0 <= a / b <= a) by {
            vstd::arithmetic::div_mod::lemma_div_is_ordered_by_denominator(a, 1, b);
        }
        lemma_unsigned_wrap64(a / b);
        lemma_unsigned_wrap64(a % b);
        assert(b * (a / b) == (a / b) * b) by (nonlinear_arith);
    }
}

/// Unsigned `i32` division and remainder: by zero both trap; otherwise, on the unsigned
/// readings, the quotient times the divisor plus the remainder is the dividend and the
/// remainder is below the divisor.
pub proof fn law_i32_unsigned_division(l: i32, r: i32)
    ensures
        r == 0 ==> spec_eval_i32(l, r, 0x6e) == Err::<i32, RuntimeError>(RuntimeError::IntegerDivisionByZero)
            && spec_eval_i32(l, r, 0x70) == Err::<i32, RuntimeError>(RuntimeError::IntegerDivisionByZero),
        r != 0 ==> (spec_eval_i32(l, r, 0x6e) matches Ok(q) && spec_eval_i32(l, r, 0x70) matches Ok(m)
            && unsigned32(q) * unsigned32(r) + unsigned32(m) == unsigned32(l) && unsigned32(m) < unsigned32(r)),
{
    if r != 0 {
        let a = unsigned32(l);
        let b = unsigned32(r);
        lemma_unsigned32_congruent(l);
        lemma_unsigned32_congruent(r);
        vstd::arithmetic::div_mod::lemma_fundamental_div_mod(a, b);
        assert(0 <= a / b <= a) by {
            vstd::arithmetic::div_mod::lemma_div_is_ordered_by_denominator(a, 1, b);
        }
        lemma_unsigned_wrap32(a / b);
        lemma_unsigned_wrap32(a % b);
        assert(b * (a / b) == (a / b) * b) by (nonlinear_arith);
    }
}

/// Signed `i64` division truncates toward zero: by zero both division and remainder trap,
/// the one quotient that does not fit (`i64::MIN / -1`) traps while its remainder is 0;
/// otherwise the quotient times the divisor plus the remainder is the dividend, and the
/// remainder is smaller than the divisor in magnitude and zero or of the dividend's sign.
pub proof fn law_i64_signed_division(l: i64, r: i64)
    ensures
        r == 0 ==> spec_eval_i64(l, r, 0x7f) == Err::<i64, RuntimeError>(RuntimeError::IntegerDivisionByZero)
            && spec_eval_i64(l, r, 0x81) == Err::<i64, RuntimeError>(RuntimeError::IntegerDivisionByZero),
        l == i64::MIN && r == -1 ==> spec_eval_i64(l, r, 0x7f) == Err::<i64, RuntimeError>(
            RuntimeError::IntegerOverflow,
        ) && spec_eval_i64(l, r, 0x81) == Ok::<i64, RuntimeError>(0),
        r != 0 && !(l == i64::MIN && r == -1) ==> (spec_eval_i64(l, r, 0x7f) matches Ok(q) && spec_eval_i64(
            l,
            r,
            0x81,
        ) matches Ok(m) && q * r + m == l && abs(m as int) < abs(r as int) && (m == 0 || ((m < 0) == (l < 0)))),
{
    if r != 0 {
        lemma_trunc_div_rem(l as int, r as int);
    }
}

/// Signed `i32` division truncates toward zero: by zero both division and remainder trap,
/// the one quotient that does not fit (`i32::MIN / -1`) traps while its remainder is 0;
/// otherwise the quotient times the divisor plus the remainder is the dividend, and the
/// remainder is smaller than the divisor in magnitude and zero or of the dividend's sign.
pub proof fn law_i32_signed_division(l: i32, r: i32)
    ensures
        r == 0 ==> spec_eval_i32(l, r, 0x6d) == Err::<i32, RuntimeError>(RuntimeError::IntegerDivisionByZero)
            && spec_eval_i32(l, r, 0x6f) == Err::<i32, RuntimeError>(RuntimeError::IntegerDivisionByZero),
        l == i32::MIN && r == -1 ==> spec_eval_i32(l, r, 0x6d) == Err::<i32, RuntimeError>(
            RuntimeError::IntegerOverflow,
        ) && spec_eval_i32(l, r, 0x6f) == Ok::<i32, RuntimeError>(0),
        r != 0 && !(l == i32::MIN && r == -1) ==> (spec_eval_i32(l, r, 0x6d) matches Ok(q) && spec_eval_i32(
            l,
            r,
            0x6f,
        ) matches Ok(m) && q * r + m == l && abs(m as int) < abs(r as int) && (m == 0 || ((m < 0) == (l < 0)))),
{
    if r != 0 {
        lemma_trunc_div_rem(l as int, r as int);
    }
}


/// Shifting a `u64` left multiplies it by a power of two, modulo 2^64.
proof fn lemma_u64_shl_mod(u: u64, k: u64)
    requires
        k < 64,
    ensures
        (u << k) as int == (u as int * vstd::arithmetic::power2::pow2(k as nat)) % 0x1_0000_0000_0000_0000,
    decreases k,
{
    let m: int = 0x1_0000_0000_0000_0000;
    vstd::arithmetic::power2::lemma2_to64();
    if k == 0 {
        assert(u << 0u64 == u) by (bit_vector);
    } else {
        let j = (k - 1) as u64;
        lemma_u64_shl_mod(u, j);
        let v = u << j;
        assert(u << k == v << 1u64) by (bit_vector)
            requires
                0 < k < 64,
                j == k - 1,
                v == u << j,
        ;
        assert(v < 0x8000_0000_0000_0000 ==> (v << 1u64) as int == v * 2) by (bit_vector);
        assert(v >= 0x8000_0000_0000_0000 ==> (v << 1u64) as int == v * 2 - 0x1_0000_0000_0000_0000)
            by (bit_vector);
        assert((v << 1u64) as int == (v as int * 2) % m);
        vstd::arithmetic::power2::lemma_pow2_unfold(k as nat);
        let p = vstd::arithmetic::power2::pow2(j as nat) as int;
        vstd::arithmetic::div_mod::lemma_mul_mod_noop_left(u as int * p, 2, m);
        assert((u as int * p) * 2 == u as int * (2 * p)) by (nonlinear_arith);
    }
}

/// Shifting a `u32` left multiplies it by a power of two, modulo 2^32.
proof fn lemma_u32_shl_mod(u: u32, k: u32)
    requires
        k < 32,
    ensures
        (u << k) as int == (u as int * vstd::arithmetic::power2::pow2(k as nat)) % 0x1_0000_0000,
    decreases k,
{
    let m: int = 0x1_0000_0000;
    vstd::arithmetic::power2::lemma2_to64();
    if k == 0 {
        assert(u << 0u32 == u) by (bit_vector);
    } else {
        let j = (k - 1) as u32;
        lemma_u32_shl_mod(u, j);
        let v = u << j;
        assert(u << k == v << 1u32) by (bit_vector)
            requires
                0 < k < 32,
                j == k - 1,
                v == u << j,
        ;
        assert(v < 0x8000_0000 ==> (v << 1u32) as int == v * 2) by (bit_vector);
        assert(v >= 0x8000_0000 ==> (v << 1u32) as int == v * 2 - 0x1_0000_0000) by (bit_vector);
        assert((v << 1u32) as int == (v as int * 2) % m);
        vstd::arithmetic::power2::lemma_pow2_unfold(k as nat);
        let p = vstd::arithmetic::power2::pow2(j as nat) as int;
        vstd::arithmetic::div_mod::lemma_mul_mod_noop_left(u as int * p, 2, m);
        assert((u as int * p) * 2 == u as int * (2 * p)) by (nonlinear_arith);
    }
}

/// `i64.shl` multiplies by two to the power of the shift count (the right operand modulo
/// 64): the result read as unsigned is that product on the unsigned reading, modulo 2^64.
pub proof fn law_i64_shl_multiplies(l: i64, r: i64)
    ensures
        spec_eval_i64(l, r, 0x86) matches Ok(x) && unsigned64(x) == (unsigned64(l)
            * vstd::arithmetic::power2::pow2((unsigned64(r) % 64) as nat)) % 0x1_0000_0000_0000_0000,
{
    lemma_cast64(l, 0);
    lemma_cast64(r, 0);
    let u = l as u64;
    let k = count64(r);
    lemma_u64_shl_mod(u, k);
    lemma_cast64(0, u << k);
}

/// `i32.shl` multiplies by two to the power of the shift count (the right operand modulo
/// 32): the result read as unsigned is that product on the unsigned reading, modulo 2^32.
pub proof fn law_i32_shl_multiplies(l: i32, r: i32)
    ensures
        spec_eval_i32(l, r, 0x74) matches Ok(x) && unsigned32(x) == (unsigned32(l)
            * vstd::arithmetic::power2::pow2((unsigned32(r) % 32) as nat)) % 0x1_0000_0000,
{
    lemma_cast32(l, 0);
    lemma_cast32(r, 0);
    let u = l as u32;
    let k = count32(r);
    lemma_u32_shl_mod(u, k);
    lemma_cast32(0, u << k);
}

/// `i64.rotl` and `i64.rotr` move the bits around: with `k` the shift count (the right
/// operand modulo 64) and `u` the unsigned reading of the left operand, rotating left
/// gives `u * 2^k` modulo 2^64 plus the `k` top bits `u / 2^(64 - k)`, and rotating right
/// gives `u / 2^k` plus the `k` low bits moved to the top, `u * 2^(64 - k)` modulo 2^64.
/// A count of zero leaves the operand as it is.
pub proof fn law_i64_rotations(l: i64, r: i64)
    ensures
        ({
            let u = unsigned64(l);
            let k = (unsigned64(r) % 64) as nat;
            let m = 0x1_0000_0000_0000_0000int;
            &&& spec_eval_i64(l, r, 0x89) is Ok && spec_eval_i64(l, r, 0x8a) is Ok
            &&& k == 0 ==> spec_eval_i64(l, r, 0x89) == Ok::<i64, RuntimeError>(l)
                && spec_eval_i64(l, r, 0x8a) == Ok::<i64, RuntimeError>(l)
            &&& k != 0 ==> unsigned64(spec_eval_i64(l, r, 0x89)->Ok_0) == (u
                * vstd::arithmetic::power2::pow2(k)) % m + u / (vstd::arithmetic::power2::pow2(
                (64 - k) as nat,
            ) as int)
            &&& k != 0 ==> unsigned64(spec_eval_i64(l, r, 0x8a)->Ok_0) == u / (
            vstd::arithmetic::power2::pow2(k) as int) + (u * vstd::arithmetic::power2::pow2(
                (64 - k) as nat,
            )) % m
        }),
{
    lemma_cast64(l, 0);
    lemma_cast64(r, 0);
    let u = l as u64;
    let k = count64(r);
    if k != 0 {
        let j = (64 - k) as u64;
        lemma_u64_shl_mod(u, k);
        lemma_u64_shl_mod(u, j);
        vstd::bits::lemma_u64_shr_is_div(u, k);
        vstd::bits::lemma_u64_shr_is_div(u, j);
        let a = u << k;
        let b = u >> j;
        assert(a & b == 0 && (a | b) as int == a + b) by (bit_vector)
            requires
                0 < k < 64,
                j == 64 - k,
                a == u << k,
                b == u >> j,
        ;
        let c = u >> k;
        let d = u << j;
        assert(c & d == 0 && (c | d) as int == c + d) by (bit_vector)
            requires
                0 < k < 64,
                j == 64 - k,
                c == u >> k,
                d == u << j,
        ;
        lemma_cast64(0, a | b);
        lemma_cast64(0, c | d);
    } else {
        lemma_cast64(l, 0);
    }
}

/// `i32.rotl` and `i32.rotr` move the bits around: with `k` the shift count (the right
/// operand modulo 32) and `u` the unsigned reading of the left operand, rotating left
/// gives `u * 2^k` modulo 2^32 plus the `k` top bits `u / 2^(32 - k)`, and rotating right
/// gives `u / 2^k` plus the `k` low bits moved to the top, `u * 2^(32 - k)` modulo 2^32.
/// A count of zero leaves the operand as it is.
pub proof fn law_i32_rotations(l: i32, r: i32)
    ensures
        ({
            let u = unsigned32(l);
            let k = (unsigned32(r) % 32) as nat;
            let m = 0x1_0000_0000int;
            &&& spec_eval_i32(l, r, 0x77) is Ok && spec_eval_i32(l, r, 0x78) is Ok
            &&& k == 0 ==> spec_eval_i32(l, r, 0x77) == Ok::<i32, RuntimeError>(l)
                && spec_eval_i32(l, r, 0x78) == Ok::<i32, RuntimeError>(l)
            &&& k != 0 ==> unsigned32(spec_eval_i32(l, r, 0x77)->Ok_0) == (u
                * vstd::arithmetic::power2::pow2(k)) % m + u / (vstd::arithmetic::power2::pow2(
                (32 - k) as nat,
            ) as int)
            &&& k != 0 ==> unsigned32(spec_eval_i32(l, r, 0x78)->Ok_0) == u / (
            vstd::arithmetic::power2::pow2(k) as int) + (u * vstd::arithmetic::power2::pow2(
                (32 - k) as nat,
            )) % m
        }),
{
    lemma_cast32(l, 0);
    lemma_cast32(r, 0);
    let u = l as u32;
    let k = count32(r);
    if k != 0 {
        let j = (32 - k) as u32;
        lemma_u32_shl_mod(u, k);
        lemma_u32_shl_mod(u, j);
        vstd::bits::lemma_u32_shr_is_div(u, k);
        vstd::bits::lemma_u32_shr_is_div(u, j);
        let a = u << k;
        let b = u >> j;
        assert(a & b == 0 && (a | b) as int == a + b) by (bit_vector)
            requires
                0 < k < 32,
                j == 32 - k,
                a == u << k,
                b == u >> j,
        ;
        let c = u >> k;
        let d = u << j;
        assert(c & d == 0 && (c | d) as int == c + d) by (bit_vector)
            requires
                0 < k < 32,
                j == 32 - k,
                c == u >> k,
                d == u << j,
        ;
        lemma_cast32(0, a | b);
        lemma_cast32(0, c | d);
    }
}


/// Division of `-(a + 1)` by a positive `d`, rounding down, is `-(a / d) - 1`.
proof fn lemma_floor_div_of_complement(a: int, d: int)
    requires
        a >= 0,
        d > 0,
    ensures
        (-a - 1) / d == -(a / d) - 1,
{
    vstd::arithmetic::div_mod::lemma_fundamental_div_mod(a, d);
    let q = a / d;
    let m = a % d;
    assert(-a - 1 == (-q - 1) * d + (d - m - 1)) by (nonlinear_arith)
        requires
            a == d * q + m,
    ;
    vstd::arithmetic::div_mod::lemma_fundamental_div_mod_converse_div(-a - 1, d, -q - 1, d - m - 1);
}

/// `i64.shr_s` is an arithmetic shift: the result is the left operand divided by two to the
/// power of the shift count (the right operand modulo 64), rounding toward negative
/// infinity; the sign is kept.
pub proof fn law_i64_shr_s_divides(l: i64, r: i64)
    ensures
        spec_eval_i64(l, r, 0x87) matches Ok(x) && x as int == (l as int) / (vstd::arithmetic::power2::pow2(
            (unsigned64(r) % 64) as nat,
        ) as int),
{
    lemma_cast64(r, 0);
    let k = count64(r);
    let d = vstd::arithmetic::power2::pow2(k as nat) as int;
    vstd::arithmetic::power2::lemma_pow2_pos(k as nat);
    let x = l >> k;
    if l >= 0 {
        let u = l as u64;
        assert(x == ((u >> k) as i64)) by (bit_vector)
            requires
                l >= 0,
                k < 64,
                u == l as u64,
                x == l >> k,
        ;
        lemma_cast64(l, 0);
        vstd::bits::lemma_u64_shr_is_div(u, k);
        vstd::arithmetic::div_mod::lemma_div_is_ordered_by_denominator(u as int, 1, d);
        lemma_cast64(0, u >> k);
    } else {
        let n = !l;
        let u = n as u64;
        assert(n as int == -(l as int) - 1) by (bit_vector)
            requires
                n == !l,
        ;
        assert(x == !((u >> k) as i64)) by (bit_vector)
            requires
                l < 0,
                k < 64,
                n == !l,
                u == n as u64,
                x == l >> k,
        ;
        lemma_cast64(n, 0);
        vstd::bits::lemma_u64_shr_is_div(u, k);
        vstd::arithmetic::div_mod::lemma_div_is_ordered_by_denominator(u as int, 1, d);
        let y = (u >> k) as i64;
        lemma_cast64(0, u >> k);
        assert(!y as int == -(y as int) - 1) by (bit_vector);
        lemma_floor_div_of_complement(n as int, d);
    }
}

/// `i32.shr_s` is an arithmetic shift: the result is the left operand divided by two to the
/// power of the shift count (the right operand modulo 32), rounding toward negative
/// infinity; the sign is kept.
pub proof fn law_i32_shr_s_divides(l: i32, r: i32)
    ensures
        spec_eval_i32(l, r, 0x75) matches Ok(x) && x as int == (l as int) / (vstd::arithmetic::power2::pow2(
            (unsigned32(r) % 32) as nat,
        ) as int),
{
    lemma_cast32(r, 0);
    let k = count32(r);
    let d = vstd::arithmetic::power2::pow2(k as nat) as int;
    vstd::arithmetic::power2::lemma_pow2_pos(k as nat);
    let x = l >> k;
    if l >= 0 {
        let u = l as u32;
        assert(x == ((u >> k) as i32)) by (bit_vector)
            requires
                l >= 0,
                k < 32,
                u == l as u32,
                x == l >> k,
        ;
        lemma_cast32(l, 0);
        vstd::bits::lemma_u32_shr_is_div(u, k);
        vstd::arithmetic::div_mod::lemma_div_is_ordered_by_denominator(u as int, 1, d);
        lemma_cast32(0, u >> k);
    } else {
        let n = !l;
        let u = n as u32;
        assert(n as int == -(l as int) - 1) by (bit_vector)
            requires
                n == !l,
        ;
        assert(x == !((u >> k) as i32)) by (bit_vector)
            requires
                l < 0,
                k < 32,
                n == !l,
                u == n as u32,
                x == l >> k,
        ;
        lemma_cast32(n, 0);
        vstd::bits::lemma_u32_shr_is_div(u, k);
        vstd::arithmetic::div_mod::lemma_div_is_ordered_by_denominator(u as int, 1, d);
        let y = (u >> k) as i32;
        lemma_cast32(0, u >> k);
        assert(!y as int == -(y as int) - 1) by (bit_vector);
        lemma_floor_div_of_complement(n as int, d);
    }
}


/// Bit `i` (counting from the least significant, `i < 64`) of a 64-bit pattern.
pub open spec fn bit64(v: i64, i: u64) -> bool {
    ((v as u64) >> i) & 1 == 1
}

/// Bit `i` (counting from the least significant, `i < 32`) of a 32-bit pattern.
pub open spec fn bit32(v: i32, i: u32) -> bool {
    ((v as u32) >> i) & 1 == 1
}

/// `i64.and`, `i64.or` and `i64.xor` work bit by bit: each bit of the result is the
/// conjunction, disjunction or difference of the operands' bits in the same place.
pub proof fn law_i64_bitwise(l: i64, r: i64)
    ensures
        spec_eval_i64(l, r, 0x83) is Ok && spec_eval_i64(l, r, 0x84) is Ok && spec_eval_i64(l, r, 0x85) is Ok,
        forall|i: u64| i < 64 ==> #[trigger] bit64(spec_eval_i64(l, r, 0x83)->Ok_0, i) == (bit64(l, i) && bit64(r, i)),
        forall|i: u64| i < 64 ==> #[trigger] bit64(spec_eval_i64(l, r, 0x84)->Ok_0, i) == (bit64(l, i) || bit64(r, i)),
        forall|i: u64| i < 64 ==> #[trigger] bit64(spec_eval_i64(l, r, 0x85)->Ok_0, i) == (bit64(l, i) != bit64(r, i)),
{
    let a = l & r;
    let o = l | r;
    let x = l ^ r;
    assert forall|i: u64| i < 64 implies #[trigger] bit64(a, i) == (bit64(l, i) && bit64(r, i)) by {
        assert((((l & r) as u64) >> i) & 1 == 1 <==> ((((l as u64) >> i) & 1 == 1) && (((r as u64) >> i) & 1 == 1)))
            by (bit_vector)
            requires
                i < 64,
        ;
    }
    assert forall|i: u64| i < 64 implies #[trigger] bit64(o, i) == (bit64(l, i) || bit64(r, i)) by {
        assert((((l | r) as u64) >> i) & 1 == 1 <==> ((((l as u64) >> i) & 1 == 1) || (((r as u64) >> i) & 1 == 1)))
            by (bit_vector)
            requires
                i < 64,
        ;
    }
    assert forall|i: u64| i < 64 implies #[trigger] bit64(x, i) == (bit64(l, i) != bit64(r, i)) by {
        assert((((l ^ r) as u64) >> i) & 1 == 1 <==> ((((l as u64) >> i) & 1 == 1) != (((r as u64) >> i) & 1 == 1)))
            by (bit_vector)
            requires
                i < 64,
        ;
    }
}

/// `i32.and`, `i32.or` and `i32.xor` work bit by bit: each bit of the result is the
/// conjunction, disjunction or difference of the operands' bits in the same place.
pub proof fn law_i32_bitwise(l: i32, r: i32)
    ensures
        spec_eval_i32(l, r, 0x71) is Ok && spec_eval_i32(l, r, 0x72) is Ok && spec_eval_i32(l, r, 0x73) is Ok,
        forall|i: u32| i < 32 ==> #[trigger] bit32(spec_eval_i32(l, r, 0x71)->Ok_0, i) == (bit32(l, i) && bit32(r, i)),
        forall|i: u32| i < 32 ==> #[trigger] bit32(spec_eval_i32(l, r, 0x72)->Ok_0, i) == (bit32(l, i) || bit32(r, i)),
        forall|i: u32| i < 32 ==> #[trigger] bit32(spec_eval_i32(l, r, 0x73)->Ok_0, i) == (bit32(l, i) != bit32(r, i)),
{
    let a = l & r;
    let o = l | r;
    let x = l ^ r;
    assert forall|i: u32| i < 32 implies #[trigger] bit32(a, i) == (bit32(l, i) && bit32(r, i)) by {
        assert((((l & r) as u32) >> i) & 1 == 1 <==> ((((l as u32) >> i) & 1 == 1) && (((r as u32) >> i) & 1 == 1)))
            by (bit_vector)
            requires
                i < 32,
        ;
    }
    assert forall|i: u32| i < 32 implies #[trigger] bit32(o, i) == (bit32(l, i) || bit32(r, i)) by {
        assert((((l | r) as u32) >> i) & 1 == 1 <==> ((((l as u32) >> i) & 1 == 1) || (((r as u32) >> i) & 1 == 1)))
            by (bit_vector)
            requires
                i < 32,
        ;
    }
    assert forall|i: u32| i < 32 implies #[trigger] bit32(x, i) == (bit32(l, i) != bit32(r, i)) by {
        assert((((l ^ r) as u32) >> i) & 1 == 1 <==> ((((l as u32) >> i) & 1 == 1) != (((r as u32) >> i) & 1 == 1)))
            by (bit_vector)
            requires
                i < 32,
        ;
    }
}

/// The signed comparisons order the operands as integers: exactly one of less, equal and
/// greater holds, each comparison is the mirror or the negation of another, and `ne` is
/// the negation of `eq`.
pub proof fn law_i64_signed_order(l: i64, r: i64)
    ensures
        spec_cmp_i64(l, r, 0x53) == Ok::<bool, RuntimeError>(l < r),
        spec_cmp_i64(l, r, 0x51) == Ok::<bool, RuntimeError>(l == r),
        spec_cmp_i64(l, r, 0x55)->Ok_0 == spec_cmp_i64(r, l, 0x53)->Ok_0,
        spec_cmp_i64(l, r, 0x57)->Ok_0 == !spec_cmp_i64(l, r, 0x55)->Ok_0,
        spec_cmp_i64(l, r, 0x59)->Ok_0 == !spec_cmp_i64(l, r, 0x53)->Ok_0,
        spec_cmp_i64(l, r, 0x52)->Ok_0 == !spec_cmp_i64(l, r, 0x51)->Ok_0,
{
}

/// The signed comparisons order the operands as integers: exactly one of less, equal and
/// greater holds, each comparison is the mirror or the negation of another, and `ne` is
/// the negation of `eq`.
pub proof fn law_i32_signed_order(l: i32, r: i32)
    ensures
        spec_cmp_i32(l, r, 0x48) == Ok::<bool, RuntimeError>(l < r),
        spec_cmp_i32(l, r, 0x46) == Ok::<bool, RuntimeError>(l == r),
        spec_cmp_i32(l, r, 0x4a)->Ok_0 == spec_cmp_i32(r, l, 0x48)->Ok_0,
        spec_cmp_i32(l, r, 0x4c)->Ok_0 == !spec_cmp_i32(l, r, 0x4a)->Ok_0,
        spec_cmp_i32(l, r, 0x4e)->Ok_0 == !spec_cmp_i32(l, r, 0x48)->Ok_0,
        spec_cmp_i32(l, r, 0x47)->Ok_0 == !spec_cmp_i32(l, r, 0x46)->Ok_0,
{
}


/// `x` lies between the powers of two that its bit length names.
proof fn lemma_bit_length_range(x: nat)
    ensures
        x < vstd::arithmetic::power2::pow2(bit_length(x)),
        x > 0 ==> vstd::arithmetic::power2::pow2((bit_length(x) - 1) as nat) <= x,
    decreases x,
{
    vstd::arithmetic::power2::lemma2_to64();
    if x > 0 {
        let h = x / 2;
        lemma_bit_length_range(h);
        let b = bit_length(x);
        assert(b == 1 + bit_length(h));
        vstd::arithmetic::power2::lemma_pow2_unfold(b);
        if h > 0 {
            vstd::arithmetic::power2::lemma_pow2_unfold((b - 1) as nat);
        }
    }
}

/// The lowest one bit of a nonzero `x` sits `trailing_zeros(x, w)` places up: below it
/// `x` is divisible, at it the quotient is odd.
proof fn lemma_trailing_zeros_place(x: nat, w: nat)
    requires
        x > 0,
    ensures
        x % vstd::arithmetic::power2::pow2(trailing_zeros(x, w)) == 0,
        (x / vstd::arithmetic::power2::pow2(trailing_zeros(x, w))) % 2 == 1,
    decreases x,
{
    vstd::arithmetic::power2::lemma2_to64();
    if x % 2 == 0 {
        let h = x / 2;
        let t = trailing_zeros(h, (w - 1) as nat);
        lemma_trailing_zeros_place(h, (w - 1) as nat);
        let p = vstd::arithmetic::power2::pow2(t) as int;
        vstd::arithmetic::power2::lemma_pow2_pos(t);
        vstd::arithmetic::power2::lemma_pow2_unfold(t + 1);
        vstd::arithmetic::div_mod::lemma_div_denominator(x as int, 2, p);
        vstd::arithmetic::div_mod::lemma_fundamental_div_mod(h as int, p);
        assert(x as int == (2 * p) * (h as int / p)) by (nonlinear_arith)
            requires
                x == 2 * h,
                h == p * (h as int / p) + h as int % p,
                h as int % p == 0,
        ;
        vstd::arithmetic::div_mod::lemma_mod_multiples_basic(h as int / p, 2 * p);
        assert((2 * p) * (h as int / p) == (h as int / p) * (2 * p)) by (nonlinear_arith);
    }
}

/// The one bits of `x` and of its complement within `w` bits add up to `w`.
proof fn lemma_popcount_complement(x: nat, w: nat)
    requires
        x < vstd::arithmetic::power2::pow2(w),
    ensures
        popcount(x) + popcount((vstd::arithmetic::power2::pow2(w) - 1 - x) as nat) == w,
    decreases w,
{
    vstd::arithmetic::power2::lemma2_to64();
    if w > 0 {
        let p = vstd::arithmetic::power2::pow2((w - 1) as nat) as int;
        vstd::arithmetic::power2::lemma_pow2_unfold(w);
        let a = x / 2;
        let y = (2 * p - 1 - x) as nat;
        assert(y / 2 == p - 1 - a && y % 2 == 1 - x % 2);
        lemma_popcount_complement(a, (w - 1) as nat);
    } else {
        assert(x == 0);
    }
}

/// `i64.clz` counts the zero bits above the highest one bit: the unsigned reading of the
/// operand lies below `2^(64 - clz)` and, unless the count is 64 (the operand is zero), at
/// or above `2^(63 - clz)`.
pub proof fn law_i64_clz(v: i64)
    ensures
        spec_unary_int(Value::I64(v), 0x79) matches Value::I64(x) && 0 <= x <= 64 && unsigned64(v)
            < vstd::arithmetic::power2::pow2((64 - x) as nat) && (x < 64 ==> vstd::arithmetic::power2::pow2(
            (63 - x) as nat,
        ) <= unsigned64(v)) && (x == 64 <==> v == 0),
{
    let u = unsigned64(v) as nat;
    vstd::arithmetic::power2::lemma2_to64();
    lemma_bit_length_bound(u, 64);
    lemma_bit_length_range(u);
}

/// `i32.clz` counts the zero bits above the highest one bit: the unsigned reading of the
/// operand lies below `2^(32 - clz)` and, unless the count is 32 (the operand is zero), at
/// or above `2^(31 - clz)`.
pub proof fn law_i32_clz(v: i32)
    ensures
        spec_unary_int(Value::I32(v), 0x67) matches Value::I32(x) && 0 <= x <= 32 && unsigned32(v)
            < vstd::arithmetic::power2::pow2((32 - x) as nat) && (x < 32 ==> vstd::arithmetic::power2::pow2(
            (31 - x) as nat,
        ) <= unsigned32(v)) && (x == 32 <==> v == 0),
{
    let u = unsigned32(v) as nat;
    vstd::arithmetic::power2::lemma2_to64();
    lemma_bit_length_bound(u, 32);
    lemma_bit_length_range(u);
}

/// `i64.ctz` counts the zero bits below the lowest one bit: it is 64 exactly for zero, and
/// otherwise the unsigned reading of the operand is divisible by `2^ctz` with an odd
/// quotient.
pub proof fn law_i64_ctz(v: i64)
    ensures
        spec_unary_int(Value::I64(v), 0x7a) matches Value::I64(t) && 0 <= t <= 64 && (t == 64 <==> v == 0)
            && (v != 0 ==> unsigned64(v) % (vstd::arithmetic::power2::pow2(t as nat) as int) == 0 && (unsigned64(v)
            / (vstd::arithmetic::power2::pow2(t as nat) as int)) % 2 == 1),
{
    let u = unsigned64(v) as nat;
    vstd::arithmetic::power2::lemma2_to64();
    if u > 0 {
        lemma_bit_length_bound(u, 64);
        lemma_trailing_zeros_bound(u, 64);
        lemma_trailing_zeros_place(u, 64);
    }
}

/// `i32.ctz` counts the zero bits below the lowest one bit: it is 32 exactly for zero, and
/// otherwise the unsigned reading of the operand is divisible by `2^ctz` with an odd
/// quotient.
pub proof fn law_i32_ctz(v: i32)
    ensures
        spec_unary_int(Value::I32(v), 0x68) matches Value::I32(t) && 0 <= t <= 32 && (t == 32 <==> v == 0)
            && (v != 0 ==> unsigned32(v) % (vstd::arithmetic::power2::pow2(t as nat) as int) == 0 && (unsigned32(v)
            / (vstd::arithmetic::power2::pow2(t as nat) as int)) % 2 == 1),
{
    let u = unsigned32(v) as nat;
    vstd::arithmetic::power2::lemma2_to64();
    if u > 0 {
        lemma_bit_length_bound(u, 32);
        lemma_trailing_zeros_bound(u, 32);
        lemma_trailing_zeros_place(u, 32);
    }
}

/// `i64.popcnt` counts the one bits: it is zero only for zero, and the counts of an operand
/// and of its bitwise complement add up to 64.
pub proof fn law_i64_popcnt(v: i64)
    ensures
        spec_unary_int(Value::I64(v), 0x7b) matches Value::I64(n) && spec_unary_int(Value::I64(!v), 0x7b) matches Value::I64(
            c,
        ) && n + c == 64 && (n == 0 <==> v == 0),
{
    let u = unsigned64(v) as nat;
    vstd::arithmetic::power2::lemma2_to64();
    lemma_popcount_complement(u, 64);
    lemma_cast64(v, 0);
    lemma_cast64(!v, 0);
    assert((!v) as u64 == 0xffff_ffff_ffff_ffffu64 - (v as u64)) by (bit_vector);
    lemma_popcount_bound(u);
    lemma_popcount_bound((0x1_0000_0000_0000_0000 - 1 - u) as nat);
    lemma_bit_length_bound(u, 64);
    lemma_bit_length_bound((0x1_0000_0000_0000_0000 - 1 - u) as nat, 64);
    if u > 0 {
        lemma_popcount_positive(u);
    }
}

/// `i32.popcnt` counts the one bits: it is zero only for zero, and the counts of an operand
/// and of its bitwise complement add up to 32.
pub proof fn law_i32_popcnt(v: i32)
    ensures
        spec_unary_int(Value::I32(v), 0x69) matches Value::I32(n) && spec_unary_int(Value::I32(!v), 0x69) matches Value::I32(
            c,
        ) && n + c == 32 && (n == 0 <==> v == 0),
{
    let u = unsigned32(v) as nat;
    vstd::arithmetic::power2::lemma2_to64();
    lemma_popcount_complement(u, 32);
    lemma_cast32(v, 0);
    lemma_cast32(!v, 0);
    assert((!v) as u32 == 0xffff_ffffu32 - (v as u32)) by (bit_vector);
    lemma_popcount_bound(u);
    lemma_popcount_bound((0x1_0000_0000 - 1 - u) as nat);
    lemma_bit_length_bound(u, 32);
    lemma_bit_length_bound((0x1_0000_0000 - 1 - u) as nat, 32);
    if u > 0 {
        lemma_popcount_positive(u);
    }
}

/// A nonzero number has a one bit.
proof fn lemma_popcount_positive(x: nat)
    requires
        x > 0,
    ensures
        popcount(x) > 0,
    decreases x,
{
    if x % 2 == 0 {
        lemma_popcount_positive(x / 2);
    }
}


/// The integer conversions keep values: `i32.wrap_i64` keeps the low 32 bits (the unsigned
/// reading modulo 2^32), `i64.extend_i32_s` keeps the signed value and `i64.extend_i32_u`
/// the unsigned reading; the reinterpretations keep the bit patterns.
pub proof fn law_integer_conversions(a: i32, b: i64, f: u32, g: u64)
    ensures
        spec_convert_bits(Value::I64(b), 0xa7) matches Value::I32(x) && unsigned32(x) == unsigned64(b)
            % 0x1_0000_0000,
        spec_convert_bits(Value::I32(a), 0xac) matches Value::I64(x) && x as int == a as int,
        spec_convert_bits(Value::I32(a), 0xad) matches Value::I64(x) && x as int == unsigned32(a),
        spec_convert_bits(Value::F32(f), 0xbc) matches Value::I32(x) && unsigned32(x) == f as int,
        spec_convert_bits(Value::F64(g), 0xbd) matches Value::I64(x) && unsigned64(x) == g as int,
        spec_convert_bits(Value::I32(a), 0xbe) matches Value::F32(x) && x as int == unsigned32(a),
        spec_convert_bits(Value::I64(b), 0xbf) matches Value::F64(x) && x as int == unsigned64(b),
{
    lemma_unsigned_wrap32(b as int);
    lemma_unsigned64_congruent(b);
    vstd::arithmetic::div_mod::lemma_mod_mod(unsigned64(b), 0x1_0000_0000, 0x1_0000_0000);
    lemma_cast32(a, 0);
    lemma_cast64(b, 0);
    lemma_cast32(0, f);
    lemma_cast64(0, g);
    lemma_cast32(f as i32, 0);
    lemma_cast64(g as i64, 0);
    assert(0x1_0000_0000_0000_0000int == 0x1_0000_0000int * 0x1_0000_0000int);
    vstd::arithmetic::div_mod::lemma_mod_mod(b as int, 0x1_0000_0000, 0x1_0000_0000);
}

/// The sign-extension operators keep the low 8, 16 or 32 bits of the operand and give the
/// one value of the operand's type with those low bits that lies in the signed range of
/// that narrower width.
pub proof fn law_sign_extension(a: i32, b: i64)
    ensures
        spec_extend_bits(Value::I32(a), 0xc0) matches Value::I32(x) && x & 0xff == a & 0xff && -0x80 <= x < 0x80,
        spec_extend_bits(Value::I32(a), 0xc1) matches Value::I32(x) && x & 0xffff == a & 0xffff && -0x8000 <= x
            < 0x8000,
        spec_extend_bits(Value::I64(b), 0xc2) matches Value::I64(x) && x & 0xff == b & 0xff && -0x80 <= x < 0x80,
        spec_extend_bits(Value::I64(b), 0xc3) matches Value::I64(x) && x & 0xffff == b & 0xffff && -0x8000 <= x
            < 0x8000,
        spec_extend_bits(Value::I64(b), 0xc4) matches Value::I64(x) && x & 0xffff_ffff == b & 0xffff_ffff
            && -0x8000_0000 <= x < 0x8000_0000,
{
    assert(((a as i8) as i32) & 0xff == a & 0xff) by (bit_vector);
    assert(((a as i16) as i32) & 0xffff == a & 0xffff) by (bit_vector);
    assert(((b as i8) as i64) & 0xff == b & 0xff) by (bit_vector);
    assert(((b as i16) as i64) & 0xffff == b & 0xffff) by (bit_vector);
    assert(((b as i32) as i64) & 0xffff_ffff == b & 0xffff_ffff) by (bit_vector);
}

} // verus!
