//! Structured control: reading instruction immediates, block signatures, and the map
//! from each `block`, `loop` and `if` to its `else` and `end`.
use vstd::prelude::*;
use crate::grammar::{rest, u32_at, i32_at, i64_at};
use crate::leb128::{
    decode_u32, decode_i32, decode_i64, decode_s33, spec_decode_s33, lemma_u32_leb_from_ok,
    lemma_signed_leb_from_ok, s33_min, s33_max, signed_leb_from,
};
use crate::runtime_error::RuntimeError;
use crate::types::{Module, ValueType};
use crate::memory::le;

verus! {

/// The reading of a `u32` immediate at `pc`: its value and the position after it.
pub open spec fn spec_u32_imm(code: Seq<u8>, pc: int) -> Result<(u32, int), RuntimeError> {
    match u32_at(code, pc) {
        Ok((v, p)) => Ok((v, p)),
        Err(e) => Err(RuntimeError::Decode(e)),
    }
}

pub open spec fn spec_i32_imm(code: Seq<u8>, pc: int) -> Result<(i32, int), RuntimeError> {
    match i32_at(code, pc) {
        Ok((v, p)) => Ok((v, p)),
        Err(e) => Err(RuntimeError::Decode(e)),
    }
}

pub open spec fn spec_i64_imm(code: Seq<u8>, pc: int) -> Result<(i64, int), RuntimeError> {
    match i64_at(code, pc) {
        Ok((v, p)) => Ok((v, p)),
        Err(e) => Err(RuntimeError::Decode(e)),
    }
}

/// An alignment and an offset, both `u32`.
pub open spec fn spec_memarg(code: Seq<u8>, pc: int) -> Result<((u32, u32), int), RuntimeError> {
    match spec_u32_imm(code, pc) {
        Err(e) => Err(e),
        Ok((a, p1)) => match spec_u32_imm(code, p1) {
            Err(e) => Err(e),
            Ok((d, p2)) => Ok(((a, d), p2)),
        },
    }
}

/// `n` fixed little-endian bytes.
pub open spec fn spec_fixed(code: Seq<u8>, pc: int, n: int, missing: &'static str) -> Result<(nat, int), RuntimeError> {
    if pc + n <= code.len() {
        Ok((le(code.subrange(pc, pc + n)), pc + n))
    } else {
        Err(RuntimeError::ControlInvariant(missing))
    }
}

/// Reads a LEB128 `u32` immediate at `*pc` and moves past it.
pub fn read_u32_immediate(code: &[u8], pc: &mut usize) -> (r: Result<u32, RuntimeError>)
    requires
        *old(pc) <= code@.len(),
    ensures
        match spec_u32_imm(code@, *old(pc) as int) {
            Ok((v, p)) => r == Ok::<u32, RuntimeError>(v) && *final(pc) == p,
            Err(e) => r == Err::<u32, RuntimeError>(e) && *final(pc) == *old(pc),
        },
        *old(pc) <= *final(pc) <= code@.len(),
        r is Ok ==> *old(pc) < *final(pc),
{
    let start = *pc;
    match decode_u32(&code[start..code.len()]) {
        Ok((value, used)) => {
            proof {
                assert(code@.subrange(start as int, code@.len() as int) =~= rest(code@, start as int));
                lemma_u32_leb_from_ok(rest(code@, start as int), 0);
            }
            *pc = start + used;
            Ok(value)
        },
        Err(e) => {
            proof {
                assert(code@.subrange(start as int, code@.len() as int) =~= rest(code@, start as int));
            }
            Err(RuntimeError::Decode(e))
        },
    }
}

/// Reads a LEB128 `i32` immediate at `*pc` and moves past it.
pub fn read_i32_immediate(code: &[u8], pc: &mut usize) -> (r: Result<i32, RuntimeError>)
    requires
        *old(pc) <= code@.len(),
    ensures
        match spec_i32_imm(code@, *old(pc) as int) {
            Ok((v, p)) => r == Ok::<i32, RuntimeError>(v) && *final(pc) == p,
            Err(e) => r == Err::<i32, RuntimeError>(e) && *final(pc) == *old(pc),
        },
        *old(pc) <= *final(pc) <= code@.len(),
        r is Ok ==> *old(pc) < *final(pc),
{
    let start = *pc;
    match decode_i32(&code[start..code.len()]) {
        Ok((value, used)) => {
            proof {
                assert(code@.subrange(start as int, code@.len() as int) =~= rest(code@, start as int));
                lemma_signed_leb_from_ok(rest(code@, start as int), 0, 5, 16, i32::MIN as int, i32::MAX as int);
            }
            *pc = start + used;
            Ok(value)
        },
        Err(e) => {
            proof {
                assert(code@.subrange(start as int, code@.len() as int) =~= rest(code@, start as int));
            }
            Err(RuntimeError::Decode(e))
        },
    }
}

/// Reads a LEB128 `i64` immediate at `*pc` and moves past it.
pub fn read_i64_immediate(code: &[u8], pc: &mut usize) -> (r: Result<i64, RuntimeError>)
    requires
        *old(pc) <= code@.len(),
    ensures
        match spec_i64_imm(code@, *old(pc) as int) {
            Ok((v, p)) => r == Ok::<i64, RuntimeError>(v) && *final(pc) == p,
            Err(e) => r == Err::<i64, RuntimeError>(e) && *final(pc) == *old(pc),
        },
        *old(pc) <= *final(pc) <= code@.len(),
        r is Ok ==> *old(pc) < *final(pc),
{
    let start = *pc;
    match decode_i64(&code[start..code.len()]) {
        Ok((value, used)) => {
            proof {
                assert(code@.subrange(start as int, code@.len() as int) =~= rest(code@, start as int));
                lemma_signed_leb_from_ok(rest(code@, start as int), 0, 10, 2, i64::MIN as int, i64::MAX as int);
            }
            *pc = start + used;
            Ok(value)
        },
        Err(e) => {
            proof {
                assert(code@.subrange(start as int, code@.len() as int) =~= rest(code@, start as int));
            }
            Err(RuntimeError::Decode(e))
        },
    }
}

/// Reads a memory immediate: alignment, then offset.
pub fn read_memarg(code: &[u8], pc: &mut usize) -> (r: Result<(u32, u32), RuntimeError>)
    requires
        *old(pc) <= code@.len(),
    ensures
        match spec_memarg(code@, *old(pc) as int) {
            Ok((v, p)) => r == Ok::<(u32, u32), RuntimeError>(v) && *final(pc) == p,
            Err(e) => r == Err::<(u32, u32), RuntimeError>(e),
        },
        *old(pc) <= *final(pc) <= code@.len(),
        r is Ok ==> *old(pc) < *final(pc),
{
    let alignment = read_u32_immediate(code, pc)?;
    let displacement = read_u32_immediate(code, pc)?;
    Ok((alignment, displacement))
}

/// Reads four little-endian bytes: the bits of an `f32` constant.
pub fn read_fixed_u32(code: &[u8], pc: &mut usize) -> (r: Result<u32, RuntimeError>)
    requires
        *old(pc) <= code@.len(),
    ensures
        match spec_fixed(code@, *old(pc) as int, 4, "truncated f32 immediate") {
            Ok((v, p)) => r == Ok::<u32, RuntimeError>(v as u32) && *final(pc) == p && v < 0x1_0000_0000,
            Err(e) => r == Err::<u32, RuntimeError>(e) && *final(pc) == *old(pc),
        },
        *old(pc) <= *final(pc) <= code@.len(),
{
    let start = *pc;
    if code.len() - start < 4 {
        return Err(RuntimeError::ControlInvariant("truncated f32 immediate"));
    }
    let ghost b = code@.subrange(start as int, start + 4);
    assert(le(b) == b[0] + 256 * le(b.drop_first()));
    assert(le(b.drop_first()) == b[1] + 256 * le(b.drop_first().drop_first()));
    assert(le(b.drop_first().drop_first()) == b[2] + 256 * le(b.drop_first().drop_first().drop_first()));
    assert(le(b.drop_first().drop_first().drop_first()) == b[3] + 256 * le(
        b.drop_first().drop_first().drop_first().drop_first(),
    ));
    let value = code[start] as u32 + 0x100 * (code[start + 1] as u32) + 0x1_0000 * (code[start + 2] as u32)
        + 0x100_0000 * (code[start + 3] as u32);
    *pc = start + 4;
    Ok(value)
}

/// Reads eight little-endian bytes: the bits of an `f64` constant.
pub fn read_fixed_u64(code: &[u8], pc: &mut usize) -> (r: Result<u64, RuntimeError>)
    requires
        *old(pc) <= code@.len(),
    ensures
        match spec_fixed(code@, *old(pc) as int, 8, "truncated f64 immediate") {
            Ok((v, p)) => r == Ok::<u64, RuntimeError>(v as u64) && *final(pc) == p && v < 0x1_0000_0000_0000_0000,
            Err(e) => r == Err::<u64, RuntimeError>(e) && *final(pc) == *old(pc),
        },
        *old(pc) <= *final(pc) <= code@.len(),
{
    let start = *pc;
    if code.len() - start < 8 {
        return Err(RuntimeError::ControlInvariant("truncated f64 immediate"));
    }
    let mut value: u64 = 0;
    let mut i: usize = 8;
    while i > 0
        invariant
            start + 8 <= code@.len(),
            code@.len() <= usize::MAX,
            i <= 8,
            value as nat == le(code@.subrange(start + i, start + 8)),
            value < crate::memory::pow256((8 - i) as nat),
        decreases i,
    {
        i = i - 1;
        let ghost tail = code@.subrange(start + i, start + 8);
        assert(tail.drop_first() =~= code@.subrange(start + i + 1, start + 8));
        assert(le(tail) == tail[0] + 256 * le(tail.drop_first()));
        proof {
            crate::memory::lemma_pow256_facts();
            assert(crate::memory::pow256((8 - i) as nat) == 256 * crate::memory::pow256((7 - i) as nat));
            crate::memory::lemma_pow256_monotone((7 - i) as nat, 7);
        }
        value = code[start + i] as u64 + 256 * value;
    }
    proof {
        crate::memory::lemma_pow256_facts();
    }
    *pc = start + 8;
    Ok(value)
}

#[derive(Debug, Clone, Copy, PartialEq, Eq, Structural)]
pub enum ControlKind {
    Function,
    Block,
    Loop,
    If,
}

/// The operand types a structured instruction takes and leaves.
#[derive(Debug, Clone, PartialEq, Eq)]
pub struct BlockSignature {
    pub params: Vec<ValueType>,
    pub results: Vec<ValueType>,
}

/// A copy of a type sequence.
pub fn copy_types(v: &Vec<ValueType>) -> (r: Vec<ValueType>)
    ensures
        r@ == v@,
{
    let mut r: Vec<ValueType> = Vec::new();
    let mut i: usize = 0;
    while i < v.len()
        invariant
            i <= v@.len(),
            r@ == v@.subrange(0, i as int),
        decreases v@.len() - i,
    {
        r.push(v[i]);
        i = i + 1;
        assert(r@ =~= v@.subrange(0, i as int));
    }
    assert(r@ =~= v@);
    r
}

/// The value type a single-byte block type names, if it names one.
pub open spec fn block_value_type(b: u8) -> Option<ValueType> {
    if b == 0x7f {
        Some(ValueType::I32)
    } else if b == 0x7e {
        Some(ValueType::I64)
    } else if b == 0x7d {
        Some(ValueType::F32)
    } else if b == 0x7c {
        Some(ValueType::F64)
    } else {
        None
    }
}

/// A block type at `pc`: `0x40` for no values, one value type for one result, or a
/// non-negative signed-33 index of a function type whose parameters and results it takes.
pub open spec fn spec_block_signature(module: Module, code: Seq<u8>, pc: int) -> Result<
    ((Seq<ValueType>, Seq<ValueType>), int),
    RuntimeError,
> {
    if pc >= code.len() {
        Err(RuntimeError::ControlInvariant("missing block type"))
    } else if code[pc] == 0x40 {
        Ok(((Seq::empty(), Seq::empty()), pc + 1))
    } else if block_value_type(code[pc]) is Some {
        Ok(((Seq::empty(), seq![block_value_type(code[pc])->Some_0]), pc + 1))
    } else {
        match spec_decode_s33(rest(code, pc)) {
            Err(e) => Err(RuntimeError::Decode(e)),
            Ok((raw, used)) => if raw < 0 {
                Err(RuntimeError::UnsupportedBlockType(code[pc]))
            } else if raw >= module.types@.len() {
                Err(RuntimeError::BlockTypeIndexOutOfBounds(raw as u32))
            } else {
                let t = module.types@[raw as int];
                Ok(((t.params@, t.results@), pc + used))
            },
        }
    }
}

/// Reads the block type at `*pc` and moves past it.
pub fn read_block_signature(module: &Module, code: &[u8], pc: &mut usize) -> (r: Result<BlockSignature, RuntimeError>)
    requires
        *old(pc) <= code@.len(),
    ensures
        match spec_block_signature(*module, code@, *old(pc) as int) {
            Ok(((ps, rs), p)) => r matches Ok(s) && s.params@ == ps && s.results@ == rs && *final(pc) == p,
            Err(e) => r == Err::<BlockSignature, RuntimeError>(e),
        },
        *old(pc) <= *final(pc) <= code@.len(),
        r is Ok ==> *old(pc) < *final(pc),
{
    let start = *pc;
    if start >= code.len() {
        return Err(RuntimeError::ControlInvariant("missing block type"));
    }
    let first = code[start];
    if first == 0x40 {
        *pc = start + 1;
        return Ok(BlockSignature { params: Vec::new(), results: Vec::new() });
    }
    let immediate = if first == 0x7f {
        Some(ValueType::I32)
    } else if first == 0x7e {
        Some(ValueType::I64)
    } else if first == 0x7d {
        Some(ValueType::F32)
    } else if first == 0x7c {
        Some(ValueType::F64)
    } else {
        None
    };
    if let Some(result) = immediate {
        *pc = start + 1;
        let mut results: Vec<ValueType> = Vec::new();
        results.push(result);
        assert(results@ =~= seq![result]);
        return Ok(BlockSignature { params: Vec::new(), results });
    }
    proof {
        assert(code@.subrange(start as int, code@.len() as int) =~= rest(code@, start as int));
    }
    let (raw, used) = match decode_s33(&code[start..code.len()]) {
        Ok(v) => v,
        Err(e) => return Err(RuntimeError::Decode(e)),
    };
    proof {
        lemma_signed_leb_from_ok(rest(code@, start as int), 0, 5, 32, s33_min(), s33_max());
    }
    if raw < 0 {
        return Err(RuntimeError::UnsupportedBlockType(first));
    }
    let type_index = raw as u32;
    if type_index as usize >= module.types.len() {
        return Err(RuntimeError::BlockTypeIndexOutOfBounds(type_index));
    }
    let ty = &module.types[type_index as usize];
    *pc = start + used;
    Ok(BlockSignature { params: copy_types(&ty.params), results: copy_types(&ty.results) })
}


/// Where a structured instruction's body starts, where its `else` and `end` are, and its
/// signature.
#[derive(Debug, Clone)]
pub struct ControlInfo {
    pub kind: ControlKind,
    pub body_pc: usize,
    pub else_pc: Option<usize>,
    pub end_pc: usize,
    pub signature: BlockSignature,
}

/// For each byte offset of a body, the boundaries of the structured instruction that
/// opens there, if one does.
#[derive(Debug, Clone)]
pub struct ControlMap {
    pub openers: Vec<Option<ControlInfo>>,
}

/// A structured instruction whose `end` has not been seen yet.
#[derive(Debug, Clone)]
pub struct PendingControl {
    pub opener: usize,
    pub kind: ControlKind,
    pub body_pc: usize,
    pub else_pc: Option<usize>,
    pub signature: BlockSignature,
}

/// The mathematical form of `ControlInfo` and `PendingControl` (a pending one has no end yet).
pub struct InfoView {
    pub opener: nat,
    pub kind: ControlKind,
    pub body_pc: nat,
    pub else_pc: Option<nat>,
    pub end_pc: nat,
    pub params: Seq<ValueType>,
    pub results: Seq<ValueType>,
}

pub open spec fn opt_nat(o: Option<usize>) -> Option<nat> {
    match o {
        Some(p) => Some(p as nat),
        None => None,
    }
}

impl ControlInfo {
    pub open spec fn view_at(&self, opener: nat) -> InfoView {
        InfoView {
            opener,
            kind: self.kind,
            body_pc: self.body_pc as nat,
            else_pc: opt_nat(self.else_pc),
            end_pc: self.end_pc as nat,
            params: self.signature.params@,
            results: self.signature.results@,
        }
    }
}

impl PendingControl {
    pub open spec fn view(&self) -> InfoView {
        InfoView {
            opener: self.opener as nat,
            kind: self.kind,
            body_pc: self.body_pc as nat,
            else_pc: opt_nat(self.else_pc),
            end_pc: 0,
            params: self.signature.params@,
            results: self.signature.results@,
        }
    }
}

pub open spec fn openers_view(o: Seq<Option<ControlInfo>>) -> Seq<Option<InfoView>> {
    Seq::new(o.len(), |i: int| match o[i] {
        Some(info) => Some(info.view_at(i as nat)),
        None => None,
    })
}

pub open spec fn pending_view(p: Seq<PendingControl>) -> Seq<InfoView> {
    Seq::new(p.len(), |i: int| p[i].view())
}

impl ControlMap {
    pub open spec fn view(&self) -> Seq<Option<InfoView>> {
        openers_view(self.openers@)
    }

    /// The boundaries of the structured instruction opening at `opener`.
    pub fn info(&self, opener: usize) -> (r: Result<ControlInfo, RuntimeError>)
        ensures
            opener < self.openers@.len() && self.openers@[opener as int] is Some ==> (r matches Ok(i)
                && i.view_at(opener as nat) == self.openers@[opener as int]->Some_0.view_at(opener as nat)),
            !(opener < self.openers@.len() && self.openers@[opener as int] is Some) ==> r == Err::<
                ControlInfo,
                RuntimeError,
            >(RuntimeError::ControlInvariant("structured-control opener has no boundary metadata")),
    {
        if opener < self.openers.len() {
            match &self.openers[opener] {
                Some(info) => {
                    return Ok(ControlInfo {
                        kind: info.kind,
                        body_pc: info.body_pc,
                        else_pc: info.else_pc,
                        end_pc: info.end_pc,
                        signature: BlockSignature {
                            params: copy_types(&info.signature.params),
                            results: copy_types(&info.signature.results),
                        },
                    });
                },
                None => {},
            }
        }
        Err(RuntimeError::ControlInvariant("structured-control opener has no boundary metadata"))
    }
}

/// `n` LEB128 `u32` immediates in a row.
pub open spec fn spec_skip_u32s(code: Seq<u8>, pc: int, n: nat) -> Result<int, RuntimeError>
    decreases n,
{
    if n == 0 {
        Ok(pc)
    } else {
        match spec_u32_imm(code, pc) {
            Err(e) => Err(e),
            Ok((_, p)) => spec_skip_u32s(code, p, (n - 1) as nat),
        }
    }
}

/// `n` memory-index immediates (table-index ones where `table` holds) from `pc` on; the
/// only memory and the only table have index 0, so any other index is refused.
pub open spec fn spec_zero_indices(code: Seq<u8>, pc: int, n: nat, table: bool) -> Result<int, RuntimeError>
    decreases n,
{
    if n == 0 {
        Ok(pc)
    } else {
        match spec_u32_imm(code, pc) {
            Err(e) => Err(e),
            Ok((index, p)) => if index != 0 {
                Err(
                    if table {
                        RuntimeError::TableIndexOutOfBounds(index)
                    } else {
                        RuntimeError::MemoryIndexOutOfBounds(index)
                    },
                )
            } else {
                spec_zero_indices(code, p, (n - 1) as nat, table)
            },
        }
    }
}

/// The immediates of the bulk-memory and table instructions after the 0xfc prefix that the
/// machine runs, from `pc` on: memory or table indices, each of which must be 0.
pub open spec fn spec_bulk_immediates(code: Seq<u8>, sub: u32, pc: int) -> Result<int, RuntimeError> {
    if sub == 8 || sub == 9 || sub == 12 || sub == 13 {
        match spec_segment_immediates(code, sub, pc) {
            Err(e) => Err(e),
            Ok((_, p)) => Ok(p),
        }
    } else if sub == 10 {
        spec_zero_indices(code, pc, 2, false)
    } else if sub == 11 {
        spec_zero_indices(code, pc, 1, false)
    } else if sub == 14 {
        spec_zero_indices(code, pc, 2, true)
    } else {
        spec_zero_indices(code, pc, 1, true)
    }
}

/// The immediates of `memory.init` (subopcode 8), `data.drop` (9), `table.init` (12) and
/// `elem.drop` (13) from `pc` on: the segment index, then for the two `init`s the memory or
/// table index, which must be 0. Gives the segment index and where the immediates end.
pub open spec fn spec_segment_immediates(code: Seq<u8>, sub: u32, pc: int) -> Result<(u32, int), RuntimeError> {
    match spec_u32_imm(code, pc) {
        Err(e) => Err(e),
        Ok((segment, p)) => if sub == 8 || sub == 12 {
            match spec_zero_indices(code, p, 1, sub == 12) {
                Err(e) => Err(e),
                Ok(q) => Ok((segment, q)),
            }
        } else {
            Ok((segment, p))
        },
    }
}

/// The subopcodes after the 0xfc prefix that the machine runs itself: the bulk-memory
/// instructions (8 to 11) and the table instructions (12 to 17).
pub open spec fn runs_prefixed(sub: u32) -> bool {
    8 <= sub <= 17
}

/// Opcodes that take one `u32` immediate.
pub open spec fn takes_one_u32(op: u8) -> bool {
    op == 0x0c || op == 0x0d || op == 0x10 || (0x20 <= op <= 0x24) || op == 0x3f || op == 0x40 || op == 0xd2
}

/// Opcodes that take no immediate.
pub open spec fn takes_nothing(op: u8) -> bool {
    op == 0x01 || op == 0x0f || op == 0x1a || op == 0x1b || (0x45 <= op <= 0xc4) || op == 0xd1
}

/// Where `ref.null`'s reference-type byte at `pc` ends: it must be `funcref`.
pub open spec fn spec_ref_type(code: Seq<u8>, pc: int) -> Result<int, RuntimeError> {
    if 0 <= pc < code.len() && code[pc] == 0x70 {
        Ok(pc + 1)
    } else {
        Err(RuntimeError::UnsupportedOpcode(0xd0))
    }
}

/// The position after the immediates of `op`, which starts at `pc`, for every opcode
/// but the structured ones; the unsupported opcodes are refused here.
pub open spec fn spec_skip(code: Seq<u8>, op: u8, pc: int) -> Result<int, RuntimeError> {
    if takes_one_u32(op) {
        spec_skip_u32s(code, pc, 1)
    } else if op == 0x0e {
        match spec_u32_imm(code, pc) {
            Err(e) => Err(e),
            Ok((n, p)) => spec_skip_u32s(code, p, (n + 1) as nat),
        }
    } else if op == 0x11 || (0x28 <= op <= 0x3e) {
        spec_skip_u32s(code, pc, 2)
    } else if op == 0x41 {
        match spec_i32_imm(code, pc) {
            Err(e) => Err(e),
            Ok((_, p)) => Ok(p),
        }
    } else if op == 0x42 {
        match spec_i64_imm(code, pc) {
            Err(e) => Err(e),
            Ok((_, p)) => Ok(p),
        }
    } else if op == 0x43 {
        match spec_fixed(code, pc, 4, "truncated f32 immediate") {
            Err(e) => Err(e),
            Ok((_, p)) => Ok(p),
        }
    } else if op == 0x44 {
        match spec_fixed(code, pc, 8, "truncated f64 immediate") {
            Err(e) => Err(e),
            Ok((_, p)) => Ok(p),
        }
    } else if takes_nothing(op) {
        Ok(pc)
    } else if op == 0xd0 {
        spec_ref_type(code, pc)
    } else if op == 0xfc {
        match spec_u32_imm(code, pc) {
            Err(e) => Err(e),
            Ok((sub, p)) => if sub <= 7 {
                Ok(p)
            } else if runs_prefixed(sub) {
                spec_bulk_immediates(code, sub, p)
            } else {
                Err(RuntimeError::UnsupportedPrefixedOpcode { prefix: 0xfc, subopcode: sub })
            },
        }
    } else {
        Err(RuntimeError::UnsupportedOpcode(op))
    }
}

pub proof fn lemma_skip_u32s_bounds(code: Seq<u8>, pc: int, n: nat)
    requires
        0 <= pc <= code.len(),
    ensures
        spec_skip_u32s(code, pc, n) matches Ok(p) ==> pc <= p <= code.len(),
    decreases n,
{
    if n > 0 {
        if spec_u32_imm(code, pc) is Ok {
            lemma_u32_leb_from_ok(rest(code, pc), 0);
            let p = spec_u32_imm(code, pc)->Ok_0.1;
            lemma_skip_u32s_bounds(code, p, (n - 1) as nat);
        }
    }
}

pub proof fn lemma_zero_indices_bounds(code: Seq<u8>, pc: int, n: nat, table: bool)
    requires
        0 <= pc <= code.len(),
    ensures
        spec_zero_indices(code, pc, n, table) matches Ok(p) ==> pc <= p <= code.len(),
    decreases n,
{
    if n > 0 {
        if spec_u32_imm(code, pc) is Ok {
            lemma_u32_leb_from_ok(rest(code, pc), 0);
            let p = spec_u32_imm(code, pc)->Ok_0.1;
            lemma_zero_indices_bounds(code, p, (n - 1) as nat, table);
        }
    }
}

pub proof fn lemma_skip_bounds(code: Seq<u8>, op: u8, pc: int)
    requires
        0 <= pc <= code.len(),
    ensures
        spec_skip(code, op, pc) matches Ok(p) ==> pc <= p <= code.len(),
{
    lemma_skip_u32s_bounds(code, pc, 1);
    lemma_skip_u32s_bounds(code, pc, 2);
    if spec_u32_imm(code, pc) is Ok {
        lemma_u32_leb_from_ok(rest(code, pc), 0);
        let (n, p) = spec_u32_imm(code, pc)->Ok_0;
        lemma_skip_u32s_bounds(code, p, (n + 1) as nat);
        lemma_zero_indices_bounds(code, p, 1, false);
        lemma_zero_indices_bounds(code, p, 2, false);
        lemma_zero_indices_bounds(code, p, 1, true);
        lemma_zero_indices_bounds(code, p, 2, true);
        if spec_u32_imm(code, p) is Ok {
            lemma_u32_leb_from_ok(rest(code, p), 0);
            let q = spec_u32_imm(code, p)->Ok_0.1;
            lemma_zero_indices_bounds(code, q, 1, true);
            lemma_zero_indices_bounds(code, q, 1, false);
        }
    }
    if spec_i32_imm(code, pc) is Ok {
        lemma_signed_leb_from_ok(rest(code, pc), 0, 5, 16, i32::MIN as int, i32::MAX as int);
    }
    if spec_i64_imm(code, pc) is Ok {
        lemma_signed_leb_from_ok(rest(code, pc), 0, 10, 2, i64::MIN as int, i64::MAX as int);
    }
}

pub proof fn lemma_block_signature_bounds(module: Module, code: Seq<u8>, pc: int)
    requires
        0 <= pc <= code.len(),
    ensures
        spec_block_signature(module, code, pc) matches Ok((_, p)) ==> pc < p <= code.len(),
{
    if pc < code.len() && code[pc] != 0x40 && block_value_type(code[pc]) is None {
        if signed_leb_from(rest(code, pc), 0, 5, 32, s33_min(), s33_max()) is Ok {
            lemma_signed_leb_from_ok(rest(code, pc), 0, 5, 32, s33_min(), s33_max());
        }
    }
}

pub open spec fn kind_of_opcode(op: u8) -> ControlKind {
    if op == 0x02 {
        ControlKind::Block
    } else if op == 0x03 {
        ControlKind::Loop
    } else {
        ControlKind::If
    }
}

/// Scanning a body from `pc` with `pending` instructions still open and the boundaries
/// found so far in `openers`: every `block`, `loop` and `if` is closed by the next
/// unmatched `end`, an `else` belongs to an open `if` that has none yet, and the final
/// `end`, which closes the function, is the last byte.
pub open spec fn spec_scan(
    module: Module,
    code: Seq<u8>,
    pc: int,
    pending: Seq<InfoView>,
    openers: Seq<Option<InfoView>>,
) -> Result<Seq<Option<InfoView>>, RuntimeError>
    decreases code.len() - pc,
{
    if pc < 0 || pc >= code.len() {
        if pending.len() > 0 {
            Err(RuntimeError::ControlInvariant("structured control is not fully closed"))
        } else {
            Ok(openers)
        }
    } else {
        let op = code[pc];
        let next = pc + 1;
        if 0x02 <= op <= 0x04 {
            proof {
                lemma_block_signature_bounds(module, code, next);
            }
            match spec_block_signature(module, code, next) {
                Err(e) => Err(e),
                Ok(((ps, rs), p)) => spec_scan(
                    module,
                    code,
                    p,
                    pending.push(
                        InfoView {
                            opener: pc as nat,
                            kind: kind_of_opcode(op),
                            body_pc: p as nat,
                            else_pc: None,
                            end_pc: 0,
                            params: ps,
                            results: rs,
                        },
                    ),
                    openers,
                ),
            }
        } else if op == 0x05 {
            if pending.len() == 0 {
                Err(RuntimeError::ControlInvariant("else has no pending structured-control opener"))
            } else if pending.last().kind != ControlKind::If || pending.last().else_pc is Some {
                Err(RuntimeError::ControlInvariant("else does not match exactly one if"))
            } else {
                spec_scan(
                    module,
                    code,
                    next,
                    pending.update(pending.len() - 1, InfoView { else_pc: Some(pc as nat), ..pending.last() }),
                    openers,
                )
            }
        } else if op == 0x0b {
            if pending.len() > 0 {
                let f = pending.last();
                spec_scan(
                    module,
                    code,
                    next,
                    pending.drop_last(),
                    openers.update(f.opener as int, Some(InfoView { end_pc: pc as nat, ..f })),
                )
            } else if next != code.len() {
                Err(RuntimeError::ControlInvariant("function end occurs before final byte"))
            } else {
                spec_scan(module, code, next, pending, openers)
            }
        } else {
            proof {
                lemma_skip_bounds(code, op, next);
            }
            match spec_skip(code, op, next) {
                Err(e) => Err(e),
                Ok(p) => spec_scan(module, code, p, pending, openers),
            }
        }
    }
}

/// Reads `count` memory-index immediates (table-index ones where `table` holds), each of
/// which must be 0.
pub fn read_zero_indices(code: &[u8], pc: &mut usize, count: usize, table: bool) -> (r: Result<(), RuntimeError>)
    requires
        *old(pc) <= code@.len(),
    ensures
        match spec_zero_indices(code@, *old(pc) as int, count as nat, table) {
            Ok(p) => r is Ok && *final(pc) == p,
            Err(e) => r == Err::<(), RuntimeError>(e),
        },
        *old(pc) <= *final(pc) <= code@.len(),
    decreases count,
{
    if count == 0 {
        return Ok(());
    }
    let index = read_u32_immediate(code, pc)?;
    if index != 0 {
        if table {
            return Err(RuntimeError::TableIndexOutOfBounds(index));
        }
        return Err(RuntimeError::MemoryIndexOutOfBounds(index));
    }
    read_zero_indices(code, pc, count - 1, table)
}

/// Reads `ref.null`'s reference-type byte, which must be `funcref`.
pub fn read_ref_type(code: &[u8], pc: &mut usize) -> (r: Result<(), RuntimeError>)
    requires
        *old(pc) <= code@.len(),
    ensures
        match spec_ref_type(code@, *old(pc) as int) {
            Ok(p) => r is Ok && *final(pc) == p,
            Err(e) => r == Err::<(), RuntimeError>(e) && *final(pc) == *old(pc),
        },
        *old(pc) <= *final(pc) <= code@.len(),
{
    if *pc < code.len() && code[*pc] == 0x70 {
        *pc = *pc + 1;
        Ok(())
    } else {
        Err(RuntimeError::UnsupportedOpcode(0xd0))
    }
}

/// Reads the immediates of `memory.init`, `data.drop`, `table.init` or `elem.drop` and
/// gives the segment index.
pub fn read_segment_immediates(code: &[u8], pc: &mut usize, sub: u32) -> (r: Result<u32, RuntimeError>)
    requires
        *old(pc) <= code@.len(),
        sub == 8 || sub == 9 || sub == 12 || sub == 13,
    ensures
        match spec_segment_immediates(code@, sub, *old(pc) as int) {
            Ok((segment, p)) => r == Ok::<u32, RuntimeError>(segment) && *final(pc) == p,
            Err(e) => r == Err::<u32, RuntimeError>(e),
        },
        *old(pc) <= *final(pc) <= code@.len(),
{
    let segment = read_u32_immediate(code, pc)?;
    if sub == 8 || sub == 12 {
        read_zero_indices(code, pc, 1, sub == 12)?;
    }
    Ok(segment)
}

/// Reads the immediates of a prefixed instruction that the machine runs itself.
pub fn read_bulk_immediates(code: &[u8], pc: &mut usize, sub: u32) -> (r: Result<(), RuntimeError>)
    requires
        *old(pc) <= code@.len(),
        runs_prefixed(sub),
    ensures
        match spec_bulk_immediates(code@, sub, *old(pc) as int) {
            Ok(p) => r is Ok && *final(pc) == p,
            Err(e) => r == Err::<(), RuntimeError>(e),
        },
        *old(pc) <= *final(pc) <= code@.len(),
{
    if sub == 8 || sub == 9 || sub == 12 || sub == 13 {
        let _ = read_segment_immediates(code, pc, sub)?;
        Ok(())
    } else if sub == 10 {
        read_zero_indices(code, pc, 2, false)
    } else if sub == 11 {
        read_zero_indices(code, pc, 1, false)
    } else if sub == 14 {
        read_zero_indices(code, pc, 2, true)
    } else {
        read_zero_indices(code, pc, 1, true)
    }
}

/// Moves `*pc` past the immediates of `opcode` (neither structured nor `else`/`end`).
fn skip_immediates(code: &[u8], opcode: u8, pc: &mut usize) -> (r: Result<(), RuntimeError>)
    requires
        *old(pc) <= code@.len(),
    ensures
        match spec_skip(code@, opcode, *old(pc) as int) {
            Ok(p) => r is Ok && *final(pc) == p,
            Err(e) => r == Err::<(), RuntimeError>(e),
        },
        *old(pc) <= *final(pc) <= code@.len(),
{
    proof {
        lemma_skip_bounds(code@, opcode, *old(pc) as int);
    }
    match opcode {
        0x0c | 0x0d | 0x10 | 0x20..=0x24 | 0x3f | 0x40 | 0xd2 => {
            let _ = read_u32_immediate(code, pc)?;
            proof {
                reveal_with_fuel(spec_skip_u32s, 2);
            }
        },
        0xd0 => {
            read_ref_type(code, pc)?;
        },
        0x0e => {
            let start = *pc;
            let target_count = read_u32_immediate(code, pc)?;
            let ghost after_count = *pc as int;
            let mut k: u32 = 0;
            while k < target_count
                invariant
                    opcode == 0x0e,
                    *old(pc) <= after_count <= *pc <= code@.len(),
                    spec_skip(code@, opcode, *old(pc) as int) == spec_skip_u32s(
                        code@,
                        after_count,
                        (target_count + 1) as nat,
                    ),
                    k <= target_count,
                    spec_skip_u32s(code@, after_count, (target_count + 1) as nat) == spec_skip_u32s(
                        code@,
                        *pc as int,
                        (target_count + 1 - k) as nat,
                    ),
                decreases target_count - k,
            {
                let _ = read_u32_immediate(code, pc)?;
                k = k + 1;
            }
            let _ = read_u32_immediate(code, pc)?;
            proof {
                reveal_with_fuel(spec_skip_u32s, 2);
            }
        },
        0x11 | 0x28..=0x3e => {
            proof {
                reveal_with_fuel(spec_skip_u32s, 3);
            }
            let _ = read_u32_immediate(code, pc)?;
            let _ = read_u32_immediate(code, pc)?;
        },
        0x41 => {
            let _ = read_i32_immediate(code, pc)?;
        },
        0x42 => {
            let _ = read_i64_immediate(code, pc)?;
        },
        0x43 => {
            let _ = read_fixed_u32(code, pc)?;
        },
        0x44 => {
            let _ = read_fixed_u64(code, pc)?;
        },
        0x01 | 0x0f | 0x1a | 0x1b | 0x45..=0xc4 | 0xd1 => {},
        0xfc => {
            let subopcode = read_u32_immediate(code, pc)?;
            if subopcode >= 8 && subopcode <= 17 {
                read_bulk_immediates(code, pc, subopcode)?;
            } else if subopcode > 7 {
                return Err(RuntimeError::UnsupportedPrefixedOpcode { prefix: 0xfc, subopcode });
            }
        },
        other => {
            return Err(RuntimeError::UnsupportedOpcode(other));
        },
    }
    Ok(())
}


/// The boundaries a well-formed scan leaves: each opener's body, `else` and `end` lie
/// inside the body, in that order after the opener, and the `end` is an `end` byte.
pub open spec fn bounded_info(code: Seq<u8>, i: InfoView) -> bool {
    &&& i.opener < i.body_pc <= code.len()
    &&& 0x02 <= code[i.opener as int] <= 0x04
    &&& i.kind == kind_of_opcode(code[i.opener as int])
    &&& i.else_pc matches Some(e) ==> i.kind == ControlKind::If && i.body_pc <= e < code.len() && code[e as int]
        == 0x05
}

/// An open instruction, once the scan has reached `pc`.
pub open spec fn pending_ok(code: Seq<u8>, i: InfoView, pc: nat) -> bool {
    &&& bounded_info(code, i)
    &&& i.body_pc <= pc
    &&& i.else_pc matches Some(e) ==> e < pc
}

pub open spec fn closed_info(code: Seq<u8>, i: InfoView) -> bool {
    &&& bounded_info(code, i)
    &&& i.else_pc matches Some(e) ==> e < i.end_pc
    &&& i.body_pc <= i.end_pc < code.len()
    &&& code[i.end_pc as int] == 0x0b
}

/// Every entry of a control map found for `code`: it sits at a `block`, `loop` or `if` of its
/// own kind, its body starts after the opener, an `else` belongs to an `if` and lies inside
/// its body, and its `end` is an `end` byte after the body start.
pub open spec fn map_wf(code: Seq<u8>, openers: Seq<Option<InfoView>>) -> bool {
    &&& openers.len() == code.len()
    &&& forall|o: int| 0 <= o < openers.len() ==> (#[trigger] openers[o] matches Some(i) ==> closed_info(code, i)
        && i.opener == o)
}

/// The spans of two structured instructions never cross: one that opens inside another's
/// span also ends inside it, and otherwise it opens after the other has ended.
pub open spec fn spans_nest(openers: Seq<Option<InfoView>>) -> bool {
    forall|a: int, b: int|
        #![trigger openers[a], openers[b]]
        0 <= a < b < openers.len() && openers[a] is Some && openers[b] is Some ==> openers[b]->Some_0.end_pc
            < openers[a]->Some_0.end_pc || openers[a]->Some_0.end_pc < b
}

/// Builds the control map of a function body: for each `block`, `loop` and `if`, where its
/// body starts and where its `else` and `end` are.
pub fn build_control_map(module: &Module, code: &[u8]) -> (r: Result<ControlMap, RuntimeError>)
    ensures
        match spec_scan(*module, code@, 0, Seq::empty(), Seq::new(code@.len(), |i: int| None::<InfoView>)) {
            Ok(o) => r matches Ok(m) && m.view() == o,
            Err(e) => r == Err::<ControlMap, RuntimeError>(e),
        },
        r matches Ok(m) ==> map_wf(code@, m.view()),
        r matches Ok(m) ==> spans_nest(m.view()),
{
    let mut openers: Vec<Option<ControlInfo>> = Vec::new();
    let mut k: usize = 0;
    while k < code.len()
        invariant
            k <= code@.len(),
            openers@.len() == k,
            forall|i: int| 0 <= i < k ==> openers@[i] is None,
        decreases code@.len() - k,
    {
        openers.push(None);
        k = k + 1;
    }
    assert(openers_view(openers@) =~= Seq::new(code@.len(), |i: int| None::<InfoView>));
    let mut pending: Vec<PendingControl> = Vec::new();
    assert(pending_view(pending@) =~= Seq::<InfoView>::empty());
    let mut pc: usize = 0;
    while pc < code.len()
        invariant
            pc <= code@.len(),
            openers@.len() == code@.len(),
            spec_scan(*module, code@, 0, Seq::empty(), Seq::new(code@.len(), |i: int| None::<InfoView>))
                == spec_scan(*module, code@, pc as int, pending_view(pending@), openers_view(openers@)),
            map_wf(code@, openers_view(openers@)),
            forall|j: int| 0 <= j < pending@.len() ==> pending_ok(code@, #[trigger] pending_view(pending@)[j], pc as nat)
                && openers@[pending@[j].opener as int] is None,
            forall|j: int, l: int| 0 <= j < l < pending@.len() ==> pending@[j].opener < pending@[l].opener,
            forall|o: int| pc <= o < code@.len() ==> openers@[o] is None,
            forall|o: int| #![trigger openers_view(openers@)[o]]
                0 <= o < code@.len() && openers_view(openers@)[o] is Some ==> openers_view(openers@)[o]->Some_0.end_pc < pc,
            spans_nest(openers_view(openers@)),
            forall|j: int, o: int| #![trigger pending@[j], openers_view(openers@)[o]]
                0 <= j < pending@.len() && 0 <= o < pending@[j].opener && openers_view(openers@)[o] is Some
                    ==> openers_view(openers@)[o]->Some_0.end_pc < pending@[j].opener,
        decreases code@.len() - pc,
    {
        let offset = pc;
        let opcode = code[pc];
        pc = pc + 1;
        let ghost pv = pending_view(pending@);
        let ghost ov = openers_view(openers@);
        if opcode >= 0x02 && opcode <= 0x04 {
            let signature = read_block_signature(module, code, &mut pc)?;
            let kind = if opcode == 0x02 {
                ControlKind::Block
            } else if opcode == 0x03 {
                ControlKind::Loop
            } else {
                ControlKind::If
            };
            pending.push(PendingControl { opener: offset, kind, body_pc: pc, else_pc: None, signature });
            assert(pending_view(pending@) =~= pv.push(pending@.last().view()));
        } else if opcode == 0x05 {
            if pending.len() == 0 {
                return Err(RuntimeError::ControlInvariant("else has no pending structured-control opener"));
            }
            let frame = pending.pop().unwrap();
            assert(frame.view() == pv.last());
            if frame.kind != ControlKind::If || frame.else_pc.is_some() {
                return Err(RuntimeError::ControlInvariant("else does not match exactly one if"));
            }
            pending.push(PendingControl {
                opener: frame.opener,
                kind: frame.kind,
                body_pc: frame.body_pc,
                else_pc: Some(offset),
                signature: frame.signature,
            });
            assert(pending_view(pending@) =~= pv.update(
                pv.len() - 1,
                InfoView { else_pc: Some(offset as nat), ..pv.last() },
            ));
        } else if opcode == 0x0b {
            if pending.len() > 0 {
                let frame = pending.pop().unwrap();
                assert(frame.view() == pv.last());
                assert(pending_view(pending@) =~= pv.drop_last());
                let info = ControlInfo {
                    kind: frame.kind,
                    body_pc: frame.body_pc,
                    else_pc: frame.else_pc,
                    end_pc: offset,
                    signature: frame.signature,
                };
                assert(info.view_at(frame.opener as nat) == InfoView { end_pc: offset as nat, ..pv.last() });
                openers.set(frame.opener, Some(info));
                assert(openers_view(openers@) =~= ov.update(
                    frame.opener as int,
                    Some(InfoView { end_pc: offset as nat, ..pv.last() }),
                ));
            } else if pc != code.len() {
                return Err(RuntimeError::ControlInvariant("function end occurs before final byte"));
            }
        } else {
            skip_immediates(code, opcode, &mut pc)?;
        }
    }
    if pending.len() > 0 {
        return Err(RuntimeError::ControlInvariant("structured control is not fully closed"));
    }
    Ok(ControlMap { openers })
}

} // verus!
