//! The benchmark workloads, their fingerprints and checksums, and the integer fields of a
//! saved baseline.
use vstd::prelude::*;
use vstd::string::{StringExecFns, StringSliceAdditionalSpecFns};
use crate::numeric::rotl64;
use crate::text::{debug_quoted, decimal_chars, quote, render_decimal};
use crate::value::Value;
use crate::error::ParseError;
use crate::grammar::spec_parse_module;
use crate::parser::parse_module;
use crate::types::Module;

verus! {

pub const FNV_OFFSET: u64 = 0xcbf2_9ce4_8422_2325;

pub const FNV_PRIME: u64 = 0x0000_0100_0000_01b3;

/// The result a workload must produce.
#[derive(Debug, Clone, Copy, PartialEq, Eq, Structural)]
pub enum Expected {
    I32(i32),
    I64(i64),
}

impl Expected {
    pub open spec fn spec_bits(self) -> u64 {
        match self {
            Expected::I32(v) => (v as u32) as u64,
            Expected::I64(v) => v as u64,
        }
    }

    pub open spec fn spec_tag(self) -> u8 {
        match self {
            Expected::I32(_) => 0x32,
            Expected::I64(_) => 0x64,
        }
    }

    /// The result's bits, zero-extended to 64.
    pub fn bits(self) -> (b: u64)
        ensures
            b == self.spec_bits(),
    {
        match self {
            Expected::I32(v) => (v as u32) as u64,
            Expected::I64(v) => v as u64,
        }
    }

    /// A byte naming the result's type.
    pub fn tag(self) -> (t: u8)
        ensures
            t == self.spec_tag(),
    {
        match self {
            Expected::I32(_) => 0x32,
            Expected::I64(_) => 0x64,
        }
    }

    /// Whether `values` is exactly the one expected value.
    pub fn matches(self, values: &[Value]) -> (b: bool)
        ensures
            b == (values@.len() == 1 && match self {
                Expected::I32(e) => values@[0] == Value::I32(e),
                Expected::I64(e) => values@[0] == Value::I64(e),
            }),
    {
        if values.len() != 1 {
            return false;
        }
        match (self, values[0]) {
            (Expected::I32(e), Value::I32(a)) => e == a,
            (Expected::I64(e), Value::I64(a)) => e == a,
            _ => false,
        }
    }
}

/// A named module in text form and the result its `run` export must give.
pub struct Workload {
    pub name: &'static str,
    pub wat: &'static str,
    pub expected: Expected,
}

#[verifier::external_type_specification]
#[verifier::external_body]
pub struct ExWatError(wat::Error);

/// The binary that `wat::parse_str` makes of WebAssembly text, or none where it refuses the
/// text. The crate is built without its component-model feature, so only core-module text is
/// accepted, and its parse reads nothing but the text.
pub uninterp spec fn wat_binary(text: Seq<char>) -> Option<Seq<u8>>;

/// Compiles WebAssembly text with `wat::parse_str` (core modules only: the component-model
/// feature, whose index syntax depends on an environment variable, is off). The contract
/// claims only that the outcome is a function of the text: whether the text is refused and
/// which binary comes out are named by `wat_binary`, not stated; which error describes a
/// refusal is left open.
#[verifier::external_body]
fn compile_wat(text: &str) -> (r: Result<Vec<u8>, wat::Error>)
    ensures
        r is Ok <==> wat_binary(text@) is Some,
        r matches Ok(b) ==> b@ == wat_binary(text@)->Some_0,
{
    wat::parse_str(text)
}

/// Why a workload's text does not give a module.
#[derive(Debug)]
pub enum WorkloadError {
    /// The text does not compile.
    Compile(wat::Error),
    /// The compiled binary does not parse.
    Parse(ParseError),
}

/// The module a workload runs: its text compiled to a binary, and the binary parsed.
pub fn workload_module(workload: &Workload) -> (r: Result<Module, WorkloadError>)
    ensures
        match wat_binary(workload.wat@) {
            None => r matches Err(WorkloadError::Compile(_)),
            Some(b) => match spec_parse_module(b) {
                Ok(m) => r matches Ok(x) && x@ == m,
                Err(e) => r matches Err(WorkloadError::Parse(pe)) && pe == e,
            },
        },
{
    let bytes = match compile_wat(workload.wat) {
        Ok(b) => b,
        Err(e) => return Err(WorkloadError::Compile(e)),
    };
    match parse_module(bytes.as_slice()) {
        Ok(m) => Ok(m),
        Err(e) => Err(WorkloadError::Parse(e)),
    }
}

/// The benchmark workloads.
pub fn workloads() -> (w: [Workload; 4])
    ensures
        w@[0].name@ == "integer_mix_loop"@,
        w@[0].expected == Expected::I32(0x99c2db78u32 as i32),
        w@[1].name@ == "control_br_table"@,
        w@[1].expected == Expected::I32(224),
        w@[2].name@ == "memory_i64_roundtrip"@,
        w@[2].expected == Expected::I64(5_227_783_157_098_340_864),
        w@[3].name@ == "float_sign_bits"@,
        w@[3].expected == Expected::I64(0x3ff8_0000_0000_0000),
{
    [
        Workload {
            name: "integer_mix_loop",
            wat: r#"(module
                (func (export "run") (result i32)
                    (local $i i32)
                    (local $x i32)
                    i32.const 305419896
                    local.set $x
                    block $done
                        loop $loop
                            local.get $x
                            i32.const 1664525
                            i32.mul
                            i32.const 1013904223
                            i32.add
                            local.set $x
                            local.get $i
                            i32.const 1
                            i32.add
                            local.tee $i
                            i32.const 256
                            i32.lt_u
                            br_if $loop
                        end
                    end
                    local.get $x))"#,
            expected: Expected::I32(0x99c2db78u32 as i32),
        },
        Workload {
            name: "control_br_table",
            wat: r#"(module
                (func (export "run") (result i32)
                    (local $i i32)
                    (local $acc i32)
                    loop $loop
                        block $after
                            block $case2
                                block $case1
                                    block $case0
                                        local.get $i
                                        i32.const 3
                                        i32.and
                                        br_table $case0 $case1 $case2 $after
                                    end
                                    local.get $acc
                                    i32.const 1
                                    i32.add
                                    local.set $acc
                                    br $after
                                end
                                local.get $acc
                                i32.const 2
                                i32.add
                                local.set $acc
                                br $after
                            end
                            local.get $acc
                            i32.const 4
                            i32.add
                            local.set $acc
                        end
                        local.get $i
                        i32.const 1
                        i32.add
                        local.tee $i
                        i32.const 128
                        i32.lt_u
                        br_if $loop
                    end
                    local.get $acc))"#,
            expected: Expected::I32(224),
        },
        Workload {
            name: "memory_i64_roundtrip",
            wat: r#"(module
                (memory 1)
                (func (export "run") (result i64)
                    (local $i i32)
                    (local $acc i64)
                    loop $loop
                        i32.const 64
                        i64.const 1234605616436508552
                        i64.store
                        local.get $acc
                        i32.const 64
                        i64.load
                        i64.add
                        local.set $acc
                        local.get $i
                        i32.const 1
                        i32.add
                        local.tee $i
                        i32.const 64
                        i32.lt_u
                        br_if $loop
                    end
                    local.get $acc))"#,
            expected: Expected::I64(5_227_783_157_098_340_864),
        },
        Workload {
            name: "float_sign_bits",
            wat: r#"(module
                (func (export "run") (result i64)
                    (local $i i32)
                    (local $x f64)
                    f64.const 1.5
                    local.set $x
                    loop $loop
                        local.get $x
                        f64.neg
                        f64.abs
                        local.set $x
                        local.get $i
                        i32.const 1
                        i32.add
                        local.tee $i
                        i32.const 256
                        i32.lt_u
                        br_if $loop
                    end
                    local.get $x
                    i64.reinterpret_f64))"#,
            expected: Expected::I64(0x3ff8_0000_0000_0000),
        },
    ]
}

/// Folds one result into a running checksum: the checksum rotated left by nine bits, mixed
/// with the result and the iteration number, each multiplied by an odd constant modulo 2^64.
pub open spec fn spec_fold_checksum(checksum: u64, bits: u64, iteration: usize) -> u64 {
    rotl64(checksum, 9) ^ (((bits as nat * 0x9e37_79b9_7f4a_7c15) % 0x1_0000_0000_0000_0000) as u64) ^ ((((
    iteration as u64) as nat * 0xd6e8_feb8_6659_fd93) % 0x1_0000_0000_0000_0000) as u64)
}

pub fn fold_checksum(checksum: u64, bits: u64, iteration: usize) -> (c: u64)
    ensures
        c == spec_fold_checksum(checksum, bits, iteration),
{
    let rotated = (checksum << 9u64) | (checksum >> 55u64);
    rotated ^ bits.wrapping_mul(0x9e37_79b9_7f4a_7c15) ^ (iteration as u64).wrapping_mul(0xd6e8_feb8_6659_fd93)
}

/// FNV-1a over `bytes` from `hash`: each byte is xored in, then the hash is multiplied by the
/// FNV prime modulo 2^64.
pub open spec fn spec_fnv1a(hash: u64, bytes: Seq<u8>) -> u64
    decreases bytes.len(),
{
    if bytes.len() == 0 {
        hash
    } else {
        let mixed = hash ^ (bytes[0] as u64);
        spec_fnv1a(((mixed as nat * FNV_PRIME as nat) % 0x1_0000_0000_0000_0000) as u64, bytes.drop_first())
    }
}

pub fn fnv1a(hash: u64, bytes: &[u8]) -> (h: u64)
    ensures
        h == spec_fnv1a(hash, bytes@),
{
    let mut h = hash;
    let mut i: usize = 0;
    assert(bytes@.subrange(0, bytes@.len() as int) =~= bytes@);
    while i < bytes.len()
        invariant
            i <= bytes@.len(),
            spec_fnv1a(hash, bytes@) == spec_fnv1a(h, bytes@.subrange(i as int, bytes@.len() as int)),
        decreases bytes@.len() - i,
    {
        let ghost rest = bytes@.subrange(i as int, bytes@.len() as int);
        assert(rest.drop_first() =~= bytes@.subrange(i + 1, bytes@.len() as int));
        h = h ^ (bytes[i] as u64);
        h = h.wrapping_mul(FNV_PRIME);
        i = i + 1;
    }
    assert(bytes@.subrange(bytes@.len() as int, bytes@.len() as int) =~= Seq::<u8>::empty());
    h
}

/// The eight little-endian bytes of `x`.
pub open spec fn le8(x: u64) -> Seq<u8> {
    crate::memory::le_bytes(x as nat, 8)
}

fn to_le_bytes(x: u64) -> (b: Vec<u8>)
    ensures
        b@ == le8(x),
{
    let mut b: Vec<u8> = Vec::new();
    let mut y = x;
    let mut j: usize = 0;
    assert(crate::memory::pow256(0) == 1);
    assert(x as nat / 1 == x as nat);
    while j < 8
        invariant
            j <= 8,
            b@.len() == j,
            y as nat == x as nat / crate::memory::pow256(j as nat),
            forall|k: int| 0 <= k < j ==> #[trigger] b@[k] == crate::memory::byte_of(x as nat, k as nat),
        decreases 8 - j,
    {
        b.push((y % 256) as u8);
        proof {
            crate::memory::lemma_pow256_positive(j as nat);
            vstd::arithmetic::div_mod::lemma_div_denominator(x as int, crate::memory::pow256(j as nat) as int, 256);
            assert(crate::memory::pow256((j + 1) as nat) == crate::memory::pow256(j as nat) * 256);
        }
        y = y / 256;
        j = j + 1;
    }
    assert(b@ =~= le8(x));
    b
}

/// The fingerprint of a workload: FNV-1a over its name, a zero byte, its text, its result
/// tag and its result bits.
pub open spec fn spec_workload_fingerprint(name: Seq<u8>, wat: Seq<u8>, expected: Expected) -> u64 {
    let h = spec_fnv1a(FNV_OFFSET, name);
    let h = spec_fnv1a(h, seq![0u8]);
    let h = spec_fnv1a(h, wat);
    let h = spec_fnv1a(h, seq![expected.spec_tag()]);
    spec_fnv1a(h, le8(expected.spec_bits()))
}

pub fn workload_fingerprint(workload: &Workload) -> (f: u64)
    ensures
        f == spec_workload_fingerprint(
            workload.name.spec_bytes(),
            workload.wat.spec_bytes(),
            workload.expected,
        ),
{
    let zero: [u8; 1] = [0];
    let tag: [u8; 1] = [workload.expected.tag()];
    assert(zero@ =~= seq![0u8]);
    assert(tag@ =~= seq![workload.expected.spec_tag()]);
    let hash = fnv1a(FNV_OFFSET, workload.name.as_bytes());
    let hash = fnv1a(hash, &zero);
    let hash = fnv1a(hash, workload.wat.as_bytes());
    let hash = fnv1a(hash, &tag);
    let bits = to_le_bytes(workload.expected.bits());
    fnv1a(hash, bits.as_slice())
}


pub open spec fn is_digit(b: u8) -> bool {
    0x30 <= b <= 0x39
}

pub open spec fn is_hex_digit(b: u8) -> bool {
    is_digit(b) || (0x41 <= b <= 0x46) || (0x61 <= b <= 0x66)
}

pub open spec fn hex_value(b: u8) -> nat {
    if is_digit(b) {
        (b - 0x30) as nat
    } else if 0x41 <= b <= 0x46 {
        (b - 0x41 + 10) as nat
    } else {
        (b - 0x61 + 10) as nat
    }
}

/// The number that a sequence of digits denotes in base `radix`, most significant first.
pub open spec fn digits_value(s: Seq<u8>, radix: nat) -> nat
    decreases s.len(),
{
    if s.len() == 0 {
        0
    } else {
        digits_value(s.drop_last(), radix) * radix + hex_value(s.last())
    }
}

/// The digits of an unsigned decimal field: what follows an optional leading `+`.
pub open spec fn unsigned_digits(s: Seq<u8>) -> Seq<u8> {
    if s.len() > 0 && s[0] == 0x2b { s.drop_first() } else { s }
}

pub open spec fn all_digits(d: Seq<u8>) -> bool {
    forall|i: int| 0 <= i < d.len() ==> is_digit(#[trigger] d[i])
}

/// How an unsigned decimal field reads: an optional `+`, then one or more ASCII digits.
pub open spec fn spec_parse_unsigned(s: Seq<u8>) -> Option<nat> {
    if unsigned_digits(s).len() > 0 && all_digits(unsigned_digits(s)) {
        Some(digits_value(unsigned_digits(s), 10))
    } else {
        None
    }
}

proof fn lemma_digits_value_step(s: Seq<u8>, i: int, radix: nat)
    requires
        0 <= i < s.len(),
    ensures
        digits_value(s.subrange(0, i + 1), radix) == digits_value(s.subrange(0, i), radix) * radix + hex_value(s[i]),
{
    assert(s.subrange(0, i + 1).drop_last() =~= s.subrange(0, i));
}

/// Reads a positive count from a baseline field; anything else is refused with a message
/// naming the field.
pub fn parse_positive_usize(value: &str, field: &str) -> (r: Result<usize, String>)
    ensures
        match spec_parse_unsigned(value.spec_bytes()) {
            Some(v) => if 0 < v <= usize::MAX { r == Ok::<usize, String>(v as usize) } else { r is Err },
            None => r is Err,
        },
        r matches Err(e) ==> e@ == "baseline "@ + field@ + " must be a positive integer"@,
{
    let bytes = value.as_bytes();
    let start: usize = if bytes.len() > 0 && bytes[0] == 0x2b { 1 } else { 0 };
    let ghost digits = unsigned_digits(bytes@);
    assert(digits =~= bytes@.subrange(start as int, bytes@.len() as int));
    let mut ok = bytes.len() > start;
    let mut value_acc: u128 = 0;
    let mut i = start;
    while ok && i < bytes.len()
        invariant
            start <= i <= bytes@.len(),
            ok ==> bytes@.len() > start,
            digits == bytes@.subrange(start as int, bytes@.len() as int),
            ok ==> forall|k: int| start <= k < i ==> is_digit(#[trigger] bytes@[k]),
            ok ==> value_acc as nat == digits_value(bytes@.subrange(start as int, i as int), 10) || value_acc
                > usize::MAX,
            ok ==> (value_acc > usize::MAX ==> digits_value(bytes@.subrange(start as int, i as int), 10) > usize::MAX),
            value_acc <= usize::MAX as u128 + 1,
            !ok ==> !(digits.len() > 0 && all_digits(digits)),
        decreases bytes@.len() - i,
    {
        let b = bytes[i];
        if b < 0x30 || b > 0x39 {
            ok = false;
            assert(!is_digit(digits[i - start]));
        } else {
            proof {
                lemma_digits_value_step(bytes@.subrange(start as int, bytes@.len() as int), i - start, 10);
                assert(bytes@.subrange(start as int, bytes@.len() as int).subrange(0, i - start + 1) =~= bytes@.subrange(
                    start as int,
                    i + 1,
                ));
                assert(bytes@.subrange(start as int, bytes@.len() as int).subrange(0, i - start) =~= bytes@.subrange(
                    start as int,
                    i as int,
                ));
            }
            if value_acc <= usize::MAX as u128 {
                value_acc = value_acc * 10 + (b - 0x30) as u128;
                if value_acc > usize::MAX as u128 {
                    value_acc = usize::MAX as u128 + 1;
                }
            } else {
                assert(digits_value(bytes@.subrange(start as int, i + 1), 10) >= digits_value(bytes@.subrange(start as int, i as int), 10)) by (nonlinear_arith)
                    requires
                        digits_value(bytes@.subrange(start as int, i + 1), 10) == digits_value(bytes@.subrange(start as int, i as int), 10) * 10 + hex_value(b),
                ;
            }
        }
        i = i + 1;
    }
    if ok {
        assert(bytes@.subrange(start as int, bytes@.len() as int) =~= digits);
        assert forall|k: int| 0 <= k < digits.len() implies is_digit(#[trigger] digits[k]) by {
            assert(digits[k] == bytes@[start + k]);
        }
        assert(all_digits(digits));
    }
    assert(value.spec_bytes() == bytes@);
    if ok && value_acc > 0 && value_acc <= usize::MAX as u128 {
        assert(bytes@.subrange(start as int, i as int) =~= digits);
        Ok(value_acc as usize)
    } else {
        Err(String::from_str("baseline ").concat(field).concat(" must be a positive integer"))
    }
}


pub open spec fn pow16(n: nat) -> nat
    decreases n,
{
    if n == 0 { 1 } else { 16 * pow16((n - 1) as nat) }
}

proof fn lemma_pow16_bound(n: nat)
    requires
        n <= 16,
    ensures
        pow16(n) <= 0x1_0000_0000_0000_0000,
    decreases 16 - n,
{
    if n < 16 {
        lemma_pow16_bound(n + 1);
    } else {
        reveal_with_fuel(pow16, 17);
    }
}

/// Reads a workload fingerprint: exactly sixteen hexadecimal digits. Anything else is
/// refused with a message naming the baseline line.
pub fn parse_fingerprint(value: &str, line_number: usize) -> (r: Result<u64, String>)
    ensures
        value.spec_bytes().len() == 16 && (forall|i: int| 0 <= i < 16 ==> is_hex_digit(#[trigger] value.spec_bytes()[i]))
            ==> r == Ok::<u64, String>(digits_value(value.spec_bytes(), 16) as u64),
        !(value.spec_bytes().len() == 16 && (forall|i: int| 0 <= i < 16 ==> is_hex_digit(#[trigger] value.spec_bytes()[i])))
            ==> (r matches Err(e) && e@ == "baseline line "@ + decimal_chars(line_number as nat)
            + " fingerprint must be exactly 16 hexadecimal digits"@),
{
    let bytes = value.as_bytes();
    let mut ok = bytes.len() == 16;
    let mut v: u64 = 0;
    let mut i: usize = 0;
    while ok && i < 16
        invariant
            ok ==> bytes@.len() == 16,
            i <= 16,
            ok ==> forall|k: int| 0 <= k < i ==> is_hex_digit(#[trigger] bytes@[k]),
            ok ==> v as nat == digits_value(bytes@.subrange(0, i as int), 16),
            ok ==> v < pow16(i as nat),
            !ok ==> !(bytes@.len() == 16 && (forall|k: int| 0 <= k < 16 ==> is_hex_digit(#[trigger] bytes@[k]))),
        decreases 16 - i,
    {
        let b = bytes[i];
        let digit: u64 = if b >= 0x30 && b <= 0x39 {
            (b - 0x30) as u64
        } else if b >= 0x41 && b <= 0x46 {
            (b - 0x41 + 10) as u64
        } else if b >= 0x61 && b <= 0x66 {
            (b - 0x61 + 10) as u64
        } else {
            ok = false;
            0
        };
        if ok {
            proof {
                lemma_digits_value_step(bytes@, i as int, 16);
                lemma_pow16_bound((i + 1) as nat);
                assert(v * 16 + digit < pow16((i + 1) as nat)) by (nonlinear_arith)
                    requires
                        v < pow16(i as nat),
                        digit < 16,
                        pow16((i + 1) as nat) == pow16(i as nat) * 16,
                ;
            }
            v = v * 16 + digit;
        }
        i = i + 1;
    }
    assert(value.spec_bytes() == bytes@);
    if ok {
        assert(bytes@.subrange(0, 16) =~= bytes@);
        Ok(v)
    } else {
        let message = String::from_str("baseline line ");
        let message = message.concat(render_decimal(line_number as u64).as_str());
        Err(message.concat(" fingerprint must be exactly 16 hexadecimal digits"))
    }
}


/// The host and measurement settings a baseline was recorded with.
pub struct BaselineContext {
    pub host_id: String,
    pub iterations: usize,
    pub warmup: usize,
    pub samples: usize,
}

/// The refusal of a baseline recorded on another host.
pub open spec fn host_mismatch_message(recorded: Seq<char>, requested: Seq<char>) -> Seq<char> {
    "baseline host_id "@ + debug_quoted(recorded) + " does not match requested host "@ + debug_quoted(requested)
}

/// The refusal of a baseline recorded with other measurement settings.
pub open spec fn settings_mismatch_message(baseline: BaselineContext, iterations: usize, warmup: usize, samples: usize) -> Seq<char> {
    "baseline measurement settings are iterations="@ + decimal_chars(baseline.iterations as nat) + ", warmup="@
        + decimal_chars(baseline.warmup as nat) + ", samples="@ + decimal_chars(baseline.samples as nat)
        + ", but candidate uses iterations="@ + decimal_chars(iterations as nat) + ", warmup="@ + decimal_chars(
        warmup as nat,
    ) + ", samples="@ + decimal_chars(samples as nat)
}

/// A baseline can stand as the reference of a run only when it was recorded on the
/// requested host with the run's iterations, warmup and samples.
pub fn validate_baseline_context(
    baseline: &BaselineContext,
    iterations: usize,
    warmup: usize,
    samples: usize,
    host_id: &String,
) -> (r: Result<(), String>)
    ensures
        baseline.host_id@ != host_id@ ==> (r matches Err(e) && e@ == host_mismatch_message(
            baseline.host_id@,
            host_id@,
        )),
        baseline.host_id@ == host_id@ && (baseline.iterations != iterations || baseline.warmup != warmup
            || baseline.samples != samples) ==> (r matches Err(e) && e@ == settings_mismatch_message(
            *baseline,
            iterations,
            warmup,
            samples,
        )),
        baseline.host_id@ == host_id@ && baseline.iterations == iterations && baseline.warmup == warmup
            && baseline.samples == samples ==> r is Ok,
{
    if baseline.host_id != *host_id {
        let mut message = String::from_str("baseline host_id ");
        message.append(quote(baseline.host_id.as_str()).as_str());
        message.append(" does not match requested host ");
        message.append(quote(host_id.as_str()).as_str());
        return Err(message);
    }
    if baseline.iterations != iterations || baseline.warmup != warmup || baseline.samples != samples {
        let mut message = String::from_str("baseline measurement settings are iterations=");
        message.append(render_decimal(baseline.iterations as u64).as_str());
        message.append(", warmup=");
        message.append(render_decimal(baseline.warmup as u64).as_str());
        message.append(", samples=");
        message.append(render_decimal(baseline.samples as u64).as_str());
        message.append(", but candidate uses iterations=");
        message.append(render_decimal(iterations as u64).as_str());
        message.append(", warmup=");
        message.append(render_decimal(warmup as u64).as_str());
        message.append(", samples=");
        message.append(render_decimal(samples as u64).as_str());
        return Err(message);
    }
    Ok(())
}

} // verus!
