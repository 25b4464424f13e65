//! The binary format as spec functions.
//!
//! Each `*_at` function reads one construct from the byte sequence `s` at
//! position `pos` and gives the decoded value with the position just past it,
//! or the error the parser reports there.
use vstd::prelude::*;
use vstd::utf8::{valid_utf8, decode_utf8};
use crate::error::ParseError;
use crate::leb128::{spec_decode_u32, spec_decode_i32, spec_decode_i64};
use crate::types::{
    Constant, DataMode, DataSegmentView, ElementMode, ElementSegmentView, ExportKind, ExportView,
    FuncTypeView, FunctionBodyView, Global, GlobalType, ImportDesc, ImportView, Limits, MemoryType,
    ModuleView, TableType, ValueType, empty_module,
};

verus! {

/// A decoded value and the position just past it, or the error found.
pub type SResult<T> = Result<(T, int), ParseError>;

/// The bytes from `pos` to the end of `s`.
pub open spec fn rest(s: Seq<u8>, pos: int) -> Seq<u8> {
    s.subrange(pos, s.len() as int)
}

pub open spec fn u8_at(s: Seq<u8>, pos: int) -> SResult<u8> {
    if 0 <= pos < s.len() {
        Ok((s[pos], pos + 1))
    } else {
        Err(ParseError::UnexpectedEof)
    }
}

pub open spec fn u32_at(s: Seq<u8>, pos: int) -> SResult<u32> {
    match spec_decode_u32(rest(s, pos)) {
        Ok((v, n)) => Ok((v, pos + n)),
        Err(e) => Err(e),
    }
}

pub open spec fn i32_at(s: Seq<u8>, pos: int) -> SResult<i32> {
    match spec_decode_i32(rest(s, pos)) {
        Ok((v, n)) => Ok((v, pos + n)),
        Err(e) => Err(e),
    }
}

pub open spec fn i64_at(s: Seq<u8>, pos: int) -> SResult<i64> {
    match spec_decode_i64(rest(s, pos)) {
        Ok((v, n)) => Ok((v, pos + n)),
        Err(e) => Err(e),
    }
}

/// `len` raw bytes.
pub open spec fn bytes_at(s: Seq<u8>, pos: int, len: int) -> SResult<Seq<u8>> {
    if 0 <= pos && 0 <= len && pos + len <= s.len() {
        Ok((s.subrange(pos, pos + len), pos + len))
    } else {
        Err(ParseError::UnexpectedEof)
    }
}

/// Little-endian value of four bytes.
pub open spec fn le_u32(b: Seq<u8>) -> int {
    b[0] + 0x100 * b[1] + 0x1_0000 * b[2] + 0x100_0000 * b[3]
}

/// Little-endian value of eight bytes.
pub open spec fn le_u64(b: Seq<u8>) -> int {
    le_u32(b) + 0x1_0000_0000 * le_u32(b.subrange(4, 8))
}

pub open spec fn u32_le_at(s: Seq<u8>, pos: int) -> SResult<u32> {
    match bytes_at(s, pos, 4) {
        Ok((b, p)) => Ok((le_u32(b) as u32, p)),
        Err(e) => Err(e),
    }
}

pub open spec fn u64_le_at(s: Seq<u8>, pos: int) -> SResult<u64> {
    match bytes_at(s, pos, 8) {
        Ok((b, p)) => Ok((le_u64(b) as u64, p)),
        Err(e) => Err(e),
    }
}

/// A length-prefixed UTF-8 name, as characters.
pub open spec fn name_at(s: Seq<u8>, pos: int) -> SResult<Seq<char>> {
    match u32_at(s, pos) {
        Err(e) => Err(e),
        Ok((len, p1)) => match bytes_at(s, p1, len as int) {
            Err(e) => Err(e),
            Ok((b, p2)) => if valid_utf8(b) {
                Ok((decode_utf8(b), p2))
            } else {
                Err(ParseError::InvalidUtf8)
            },
        },
    }
}

/// `n` more items read by `item`, appended to `acc`.
pub open spec fn repeat<T>(
    s: Seq<u8>,
    pos: int,
    n: nat,
    item: spec_fn(Seq<u8>, int) -> SResult<T>,
    acc: Seq<T>,
) -> Result<(Seq<T>, int), ParseError>
    decreases n,
{
    if n == 0 {
        Ok((acc, pos))
    } else {
        match item(s, pos) {
            Err(e) => Err(e),
            Ok((x, p)) => repeat(s, p, (n - 1) as nat, item, acc.push(x)),
        }
    }
}

/// A vector: a u32 count followed by that many items.
pub open spec fn vec_at<T>(s: Seq<u8>, pos: int, item: spec_fn(Seq<u8>, int) -> SResult<T>) -> Result<
    (Seq<T>, int),
    ParseError,
> {
    match u32_at(s, pos) {
        Err(e) => Err(e),
        Ok((n, p)) => repeat(s, p, n as nat, item, Seq::empty()),
    }
}

pub open spec fn value_type_of(byte: u8) -> Option<ValueType> {
    if byte == 0x7f {
        Some(ValueType::I32)
    } else if byte == 0x7e {
        Some(ValueType::I64)
    } else if byte == 0x7d {
        Some(ValueType::F32)
    } else if byte == 0x7c {
        Some(ValueType::F64)
    } else if byte == 0x70 {
        Some(ValueType::FuncRef)
    } else {
        None
    }
}

pub open spec fn value_type_at(s: Seq<u8>, pos: int) -> SResult<ValueType> {
    match u8_at(s, pos) {
        Err(e) => Err(e),
        Ok((b, p)) => match value_type_of(b) {
            Some(t) => Ok((t, p)),
            None => Err(ParseError::UnsupportedValueType(b)),
        },
    }
}

pub open spec fn value_type_item() -> spec_fn(Seq<u8>, int) -> SResult<ValueType> {
    |s: Seq<u8>, pos: int| value_type_at(s, pos)
}

pub open spec fn u32_item() -> spec_fn(Seq<u8>, int) -> SResult<u32> {
    |s: Seq<u8>, pos: int| u32_at(s, pos)
}

pub open spec fn mutability_at(s: Seq<u8>, pos: int) -> SResult<bool> {
    match u8_at(s, pos) {
        Err(e) => Err(e),
        Ok((b, p)) => if b == 0 {
            Ok((false, p))
        } else if b == 1 {
            Ok((true, p))
        } else {
            Err(ParseError::InvalidMutability(b))
        },
    }
}

/// Limits; with `allow64`, the memory64 flag forms are accepted too and reported
/// in the second component.
pub open spec fn limits_at(s: Seq<u8>, pos: int, allow64: bool) -> SResult<(Limits, bool)> {
    match u8_at(s, pos) {
        Err(e) => Err(e),
        Ok((flags, p1)) => match u32_at(s, p1) {
            Err(e) => Err(e),
            Ok((min, p2)) => if flags == 0 || (allow64 && flags == 4) {
                Ok(((Limits { min, max: None }, flags == 4), p2))
            } else if flags == 1 || (allow64 && flags == 5) {
                match u32_at(s, p2) {
                    Err(e) => Err(e),
                    Ok((max, p3)) => Ok(((Limits { min, max: Some(max) }, flags == 5), p3)),
                }
            } else {
                Err(ParseError::InvalidLimitsFlags(flags))
            },
        },
    }
}

/// A funcref table type: the reference-type byte, then limits.
pub open spec fn table_type_at(s: Seq<u8>, pos: int) -> SResult<TableType> {
    match u8_at(s, pos) {
        Err(e) => Err(e),
        Ok((r, p1)) => if r != 0x70 {
            Err(ParseError::InvalidReferenceType(r))
        } else {
            match limits_at(s, p1, false) {
                Err(e) => Err(e),
                Ok(((limits, _), p2)) => Ok((TableType { limits }, p2)),
            }
        },
    }
}

pub open spec fn memory_type_at(s: Seq<u8>, pos: int) -> SResult<MemoryType> {
    match limits_at(s, pos, true) {
        Err(e) => Err(e),
        Ok(((limits, memory64), p)) => Ok((MemoryType { limits, memory64 }, p)),
    }
}

/// A global's initializer: a constant instruction and the end byte. Input that runs out
/// where the end byte belongs is a missing end.
pub open spec fn const_expr_at(s: Seq<u8>, pos: int) -> SResult<Constant> {
    const_expr_ending_at(s, pos, false)
}

/// A segment's offset expression: as a global's initializer, but input that runs out where
/// the end byte belongs is an unexpected end of input. A wrong byte there is a missing end.
pub open spec fn offset_expr_at(s: Seq<u8>, pos: int) -> SResult<Constant> {
    const_expr_ending_at(s, pos, true)
}

/// A constant instruction followed by the end byte; `offset` chooses the error for input that
/// ends before the end byte.
pub open spec fn const_expr_ending_at(s: Seq<u8>, pos: int, offset: bool) -> SResult<Constant> {
    match u8_at(s, pos) {
        Err(e) => Err(e),
        Ok((op, p1)) => {
            let v: SResult<Constant> = if op == 0x41 {
                match i32_at(s, p1) {
                    Ok((x, p)) => Ok((Constant::I32(x), p)),
                    Err(e) => Err(e),
                }
            } else if op == 0x42 {
                match i64_at(s, p1) {
                    Ok((x, p)) => Ok((Constant::I64(x), p)),
                    Err(e) => Err(e),
                }
            } else if op == 0x43 {
                match u32_le_at(s, p1) {
                    Ok((x, p)) => Ok((Constant::F32(x), p)),
                    Err(e) => Err(e),
                }
            } else if op == 0x44 {
                match u64_le_at(s, p1) {
                    Ok((x, p)) => Ok((Constant::F64(x), p)),
                    Err(e) => Err(e),
                }
            } else {
                Err(ParseError::InvalidConstExprOpcode(op))
            };
            match v {
                Err(e) => Err(e),
                Ok((c, p2)) => if 0 <= p2 < s.len() && s[p2] == 0x0b {
                    Ok((c, p2 + 1))
                } else if offset && !(0 <= p2 < s.len()) {
                    Err(ParseError::UnexpectedEof)
                } else {
                    Err(ParseError::ConstExprMissingEnd)
                },
            }
        },
    }
}

pub open spec fn i32_const_expr_at(s: Seq<u8>, pos: int) -> SResult<i32> {
    match offset_expr_at(s, pos) {
        Err(e) => Err(e),
        Ok((Constant::I32(v), p)) => Ok((v, p)),
        Ok((c, _)) => Err(
            ParseError::ConstExprTypeMismatch { expected: ValueType::I32, actual: c.spec_value_type() },
        ),
    }
}

/// The offset expression of an active data segment, as an unsigned address in
/// the width of the target memory.
pub open spec fn data_offset_at(s: Seq<u8>, pos: int, memory64: bool) -> SResult<u64> {
    match offset_expr_at(s, pos) {
        Err(e) => Err(e),
        Ok((c, p)) => if memory64 {
            match c {
                Constant::I64(v) => Ok((v as u64, p)),
                _ => Err(
                    ParseError::ConstExprTypeMismatch {
                        expected: ValueType::I64,
                        actual: c.spec_value_type(),
                    },
                ),
            }
        } else {
            match c {
                Constant::I32(v) => Ok(((v as u32) as u64, p)),
                _ => Err(
                    ParseError::ConstExprTypeMismatch {
                        expected: ValueType::I32,
                        actual: c.spec_value_type(),
                    },
                ),
            }
        },
    }
}

pub open spec fn func_type_at(s: Seq<u8>, pos: int) -> SResult<FuncTypeView> {
    match u8_at(s, pos) {
        Err(e) => Err(e),
        Ok((tag, p1)) => if tag != 0x60 {
            Err(ParseError::InvalidFunctionType(tag))
        } else {
            match vec_at(s, p1, value_type_item()) {
                Err(e) => Err(e),
                Ok((params, p2)) => match vec_at(s, p2, value_type_item()) {
                    Err(e) => Err(e),
                    Ok((results, p3)) => Ok((FuncTypeView { params, results }, p3)),
                },
            }
        },
    }
}

pub open spec fn func_type_item() -> spec_fn(Seq<u8>, int) -> SResult<FuncTypeView> {
    |s: Seq<u8>, pos: int| func_type_at(s, pos)
}

pub open spec fn import_desc_at(s: Seq<u8>, pos: int) -> SResult<ImportDesc> {
    match u8_at(s, pos) {
        Err(e) => Err(e),
        Ok((kind, p1)) => if kind == 0 {
            match u32_at(s, p1) {
                Err(e) => Err(e),
                Ok((t, p)) => Ok((ImportDesc::Function(t), p)),
            }
        } else if kind == 1 {
            match table_type_at(s, p1) {
                Err(e) => Err(e),
                Ok((t, p)) => Ok((ImportDesc::Table(t), p)),
            }
        } else if kind == 2 {
            match memory_type_at(s, p1) {
                Err(e) => Err(e),
                Ok((m, p)) => Ok((ImportDesc::Memory(m), p)),
            }
        } else if kind == 3 {
            match value_type_at(s, p1) {
                Err(e) => Err(e),
                Ok((value_type, p2)) => match mutability_at(s, p2) {
                    Err(e) => Err(e),
                    Ok((mutable, p3)) => Ok((ImportDesc::Global(GlobalType { value_type, mutable }), p3)),
                },
            }
        } else {
            Err(ParseError::InvalidImportKind(kind))
        },
    }
}

pub open spec fn import_at(s: Seq<u8>, pos: int) -> SResult<ImportView> {
    match name_at(s, pos) {
        Err(e) => Err(e),
        Ok((module, p1)) => match name_at(s, p1) {
            Err(e) => Err(e),
            Ok((name, p2)) => match import_desc_at(s, p2) {
                Err(e) => Err(e),
                Ok((desc, p3)) => Ok((ImportView { module, name, desc }, p3)),
            },
        },
    }
}

pub open spec fn import_item() -> spec_fn(Seq<u8>, int) -> SResult<ImportView> {
    |s: Seq<u8>, pos: int| import_at(s, pos)
}

pub open spec fn table_item() -> spec_fn(Seq<u8>, int) -> SResult<TableType> {
    |s: Seq<u8>, pos: int| table_type_at(s, pos)
}

pub open spec fn memory_item() -> spec_fn(Seq<u8>, int) -> SResult<MemoryType> {
    |s: Seq<u8>, pos: int| memory_type_at(s, pos)
}

pub open spec fn global_at(s: Seq<u8>, pos: int) -> SResult<Global> {
    match value_type_at(s, pos) {
        Err(e) => Err(e),
        Ok((value_type, p1)) => match mutability_at(s, p1) {
            Err(e) => Err(e),
            Ok((mutable, p2)) => match const_expr_at(s, p2) {
                Err(e) => Err(e),
                Ok((init, p3)) => if init.spec_value_type() != value_type {
                    Err(
                        ParseError::ConstExprTypeMismatch {
                            expected: value_type,
                            actual: init.spec_value_type(),
                        },
                    )
                } else {
                    Ok((Global { ty: GlobalType { value_type, mutable }, init }, p3))
                },
            },
        },
    }
}

pub open spec fn global_item() -> spec_fn(Seq<u8>, int) -> SResult<Global> {
    |s: Seq<u8>, pos: int| global_at(s, pos)
}

pub open spec fn export_kind_of(b: u8) -> Option<ExportKind> {
    if b == 0 {
        Some(ExportKind::Function)
    } else if b == 1 {
        Some(ExportKind::Table)
    } else if b == 2 {
        Some(ExportKind::Memory)
    } else if b == 3 {
        Some(ExportKind::Global)
    } else {
        None
    }
}

pub open spec fn export_at(s: Seq<u8>, pos: int) -> SResult<ExportView> {
    match name_at(s, pos) {
        Err(e) => Err(e),
        Ok((name, p1)) => match u8_at(s, p1) {
            Err(e) => Err(e),
            Ok((b, p2)) => match export_kind_of(b) {
                None => Err(ParseError::InvalidExportKind(b)),
                Some(kind) => match u32_at(s, p2) {
                    Err(e) => Err(e),
                    Ok((index, p3)) => Ok((ExportView { name, kind, index }, p3)),
                },
            },
        },
    }
}

pub open spec fn export_item() -> spec_fn(Seq<u8>, int) -> SResult<ExportView> {
    |s: Seq<u8>, pos: int| export_at(s, pos)
}

/// The legacy element-kind byte, which must be zero (funcref).
pub open spec fn element_kind_at(s: Seq<u8>, pos: int) -> SResult<()> {
    match u8_at(s, pos) {
        Err(e) => Err(e),
        Ok((k, p)) => if k == 0 {
            Ok(((), p))
        } else {
            Err(ParseError::InvalidElementKind(k))
        },
    }
}

pub open spec fn element_mode_at(s: Seq<u8>, pos: int) -> SResult<ElementMode> {
    match u32_at(s, pos) {
        Err(e) => Err(e),
        Ok((flags, p1)) => if flags == 0 {
            match i32_const_expr_at(s, p1) {
                Err(e) => Err(e),
                Ok((offset, p2)) => Ok((ElementMode::Active { table_index: 0, offset }, p2)),
            }
        } else if flags == 1 {
            match element_kind_at(s, p1) {
                Err(e) => Err(e),
                Ok((_, p2)) => Ok((ElementMode::Passive, p2)),
            }
        } else if flags == 2 {
            match u32_at(s, p1) {
                Err(e) => Err(e),
                Ok((table_index, p2)) => match i32_const_expr_at(s, p2) {
                    Err(e) => Err(e),
                    Ok((offset, p3)) => match element_kind_at(s, p3) {
                        Err(e) => Err(e),
                        Ok((_, p4)) => Ok((ElementMode::Active { table_index, offset }, p4)),
                    },
                },
            }
        } else if flags == 3 {
            match element_kind_at(s, p1) {
                Err(e) => Err(e),
                Ok((_, p2)) => Ok((ElementMode::Declarative, p2)),
            }
        } else {
            Err(ParseError::UnsupportedElementSegmentMode(flags))
        },
    }
}

pub open spec fn element_at(s: Seq<u8>, pos: int) -> SResult<ElementSegmentView> {
    match element_mode_at(s, pos) {
        Err(e) => Err(e),
        Ok((mode, p1)) => match vec_at(s, p1, u32_item()) {
            Err(e) => Err(e),
            Ok((function_indices, p2)) => Ok((ElementSegmentView { mode, function_indices }, p2)),
        },
    }
}

pub open spec fn element_item() -> spec_fn(Seq<u8>, int) -> SResult<ElementSegmentView> {
    |s: Seq<u8>, pos: int| element_at(s, pos)
}

pub open spec fn local_group_at(s: Seq<u8>, pos: int) -> SResult<(u32, ValueType)> {
    match u32_at(s, pos) {
        Err(e) => Err(e),
        Ok((count, p1)) => match value_type_at(s, p1) {
            Err(e) => Err(e),
            Ok((t, p2)) => Ok(((count, t), p2)),
        },
    }
}

pub open spec fn local_group_item() -> spec_fn(Seq<u8>, int) -> SResult<(u32, ValueType)> {
    |s: Seq<u8>, pos: int| local_group_at(s, pos)
}

/// The contents of one function body: local groups, then instructions ending in `end`.
pub open spec fn body_content(b: Seq<u8>) -> Result<FunctionBodyView, ParseError> {
    match vec_at(b, 0, local_group_item()) {
        Err(e) => Err(e),
        Ok((locals, p)) => {
            let code = b.subrange(p, b.len() as int);
            if code.len() == 0 || code.last() != 0x0b {
                Err(ParseError::FunctionBodyMissingEnd)
            } else {
                Ok(FunctionBodyView { locals, code })
            }
        },
    }
}

pub open spec fn body_at(s: Seq<u8>, pos: int) -> SResult<FunctionBodyView> {
    match u32_at(s, pos) {
        Err(e) => Err(e),
        Ok((len, p1)) => match bytes_at(s, p1, len as int) {
            Err(e) => Err(e),
            Ok((b, p2)) => match body_content(b) {
                Err(e) => Err(e),
                Ok(body) => Ok((body, p2)),
            },
        },
    }
}

pub open spec fn body_item() -> spec_fn(Seq<u8>, int) -> SResult<FunctionBodyView> {
    |s: Seq<u8>, pos: int| body_at(s, pos)
}

/// The entries that `f` picks out of `imports`, in import order.
pub open spec fn select<T>(imports: Seq<ImportView>, f: spec_fn(ImportView) -> Option<T>) -> Seq<T>
    decreases imports.len(),
{
    if imports.len() == 0 {
        Seq::empty()
    } else {
        let r = select(imports.drop_last(), f);
        match f(imports.last()) {
            Some(x) => r.push(x),
            None => r,
        }
    }
}

pub open spec fn pick_table() -> spec_fn(ImportView) -> Option<TableType> {
    |i: ImportView|
        match i.desc {
            ImportDesc::Table(t) => Some(t),
            _ => None,
        }
}

pub open spec fn pick_memory() -> spec_fn(ImportView) -> Option<MemoryType> {
    |i: ImportView|
        match i.desc {
            ImportDesc::Memory(t) => Some(t),
            _ => None,
        }
}

pub open spec fn pick_global() -> spec_fn(ImportView) -> Option<GlobalType> {
    |i: ImportView|
        match i.desc {
            ImportDesc::Global(t) => Some(t),
            _ => None,
        }
}

pub open spec fn pick_global_import() -> spec_fn(ImportView) -> Option<ImportView> {
    |i: ImportView|
        match i.desc {
            ImportDesc::Global(_) => Some(i),
            _ => None,
        }
}

pub open spec fn pick_function() -> spec_fn(ImportView) -> Option<ImportView> {
    |i: ImportView|
        match i.desc {
            ImportDesc::Function(_) => Some(i),
            _ => None,
        }
}

/// The table types of the table imports, in import order.
pub open spec fn imported_tables(imports: Seq<ImportView>) -> Seq<TableType> {
    select(imports, pick_table())
}

/// The memory types of the memory imports, in import order.
pub open spec fn imported_memories(imports: Seq<ImportView>) -> Seq<MemoryType> {
    select(imports, pick_memory())
}

/// The global types of the global imports, in import order.
pub open spec fn imported_globals(imports: Seq<ImportView>) -> Seq<GlobalType> {
    select(imports, pick_global())
}

/// The global imports, in import order.
pub open spec fn global_imports(imports: Seq<ImportView>) -> Seq<ImportView> {
    select(imports, pick_global_import())
}

/// The function imports, in import order.
pub open spec fn imported_functions(imports: Seq<ImportView>) -> Seq<ImportView> {
    select(imports, pick_function())
}

/// Selecting from one more import extends the selection by that import's pick.
pub proof fn lemma_select_step<T>(s: Seq<ImportView>, f: spec_fn(ImportView) -> Option<T>, i: int)
    requires
        0 <= i < s.len(),
    ensures
        select(s.take(i + 1), f) == match f(s[i]) {
            Some(x) => select(s.take(i), f).push(x),
            None => select(s.take(i), f),
        },
{
    assert(s.take(i + 1).drop_last() =~= s.take(i));
}

/// The selection from a prefix is a prefix of the selection.
pub proof fn lemma_select_prefix<T>(s: Seq<ImportView>, f: spec_fn(ImportView) -> Option<T>, i: int)
    requires
        0 <= i <= s.len(),
    ensures
        select(s.take(i), f).len() <= select(s, f).len(),
        forall|k: int|
            0 <= k < select(s.take(i), f).len() ==> #[trigger] select(s.take(i), f)[k] == select(
                s,
                f,
            )[k],
    decreases s.len(),
{
    if i == s.len() {
        assert(s.take(i) =~= s);
    } else {
        let t = s.drop_last();
        assert(s.take(i) =~= t.take(i));
        lemma_select_prefix(t, f, i);
    }
}

/// Every import the selection skips past leaves the count unchanged; the
/// selection never has more entries than there are imports.
pub proof fn lemma_select_len<T>(s: Seq<ImportView>, f: spec_fn(ImportView) -> Option<T>)
    ensures
        select(s, f).len() <= s.len(),
    decreases s.len(),
{
    if s.len() > 0 {
        lemma_select_len(s.drop_last(), f);
    }
}

/// Entry `index` of an index space made of imported entries followed by defined ones.
pub open spec fn index_space<T>(imported: Seq<T>, defined: Seq<T>, index: int) -> Option<T> {
    if 0 <= index < imported.len() {
        Some(imported[index])
    } else if imported.len() <= index < imported.len() + defined.len() {
        Some(defined[index - imported.len()])
    } else {
        None
    }
}

pub open spec fn spec_memory_type(m: ModuleView, index: int) -> Option<MemoryType> {
    index_space(imported_memories(m.imports), m.memories, index)
}

pub open spec fn spec_table_type(m: ModuleView, index: int) -> Option<TableType> {
    index_space(imported_tables(m.imports), m.tables, index)
}

pub open spec fn spec_global_type(m: ModuleView, index: int) -> Option<GlobalType> {
    index_space(
        imported_globals(m.imports),
        m.globals.map_values(|g: Global| g.ty),
        index,
    )
}

/// Whether memory `index` of `m` is a 64-bit memory (false when there is no such memory).
pub open spec fn memory_is_64(m: ModuleView, index: int) -> bool {
    match spec_memory_type(m, index) {
        Some(t) => t.memory64,
        None => false,
    }
}

pub open spec fn data_at(s: Seq<u8>, pos: int, m: ModuleView) -> SResult<DataSegmentView> {
    match u32_at(s, pos) {
        Err(e) => Err(e),
        Ok((flags, p1)) => {
            let mode: SResult<DataMode> = if flags == 0 {
                match data_offset_at(s, p1, memory_is_64(m, 0)) {
                    Err(e) => Err(e),
                    Ok((offset, p)) => Ok((DataMode::Active { memory_index: 0, offset }, p)),
                }
            } else if flags == 1 {
                Ok((DataMode::Passive, p1))
            } else if flags == 2 {
                match u32_at(s, p1) {
                    Err(e) => Err(e),
                    Ok((memory_index, p2)) => match data_offset_at(
                        s,
                        p2,
                        memory_is_64(m, memory_index as int),
                    ) {
                        Err(e) => Err(e),
                        Ok((offset, p)) => Ok((DataMode::Active { memory_index, offset }, p)),
                    },
                }
            } else {
                Err(ParseError::UnsupportedDataSegmentMode(flags))
            };
            match mode {
                Err(e) => Err(e),
                Ok((mode, p2)) => match u32_at(s, p2) {
                    Err(e) => Err(e),
                    Ok((len, p3)) => match bytes_at(s, p3, len as int) {
                        Err(e) => Err(e),
                        Ok((bytes, p4)) => Ok((DataSegmentView { mode, bytes }, p4)),
                    },
                },
            }
        },
    }
}

pub open spec fn data_item(m: ModuleView) -> spec_fn(Seq<u8>, int) -> SResult<DataSegmentView> {
    |s: Seq<u8>, pos: int| data_at(s, pos, m)
}

/// The effect of a standard section with id `id` (1 to 12) and payload `p` on
/// module `m`, with the position where its parser stopped inside `p`.
#[verifier::opaque]
pub open spec fn section_at(id: u8, p: Seq<u8>, m: ModuleView) -> Result<(ModuleView, int), ParseError> {
    if id == 1 {
        match vec_at(p, 0, func_type_item()) {
            Err(e) => Err(e),
            Ok((items, q)) => Ok((ModuleView { types: m.types + items, ..m }, q)),
        }
    } else if id == 2 {
        match vec_at(p, 0, import_item()) {
            Err(e) => Err(e),
            Ok((items, q)) => Ok((ModuleView { imports: m.imports + items, ..m }, q)),
        }
    } else if id == 3 {
        match vec_at(p, 0, u32_item()) {
            Err(e) => Err(e),
            Ok((items, q)) => Ok(
                (ModuleView { function_type_indices: m.function_type_indices + items, ..m }, q),
            ),
        }
    } else if id == 4 {
        match vec_at(p, 0, table_item()) {
            Err(e) => Err(e),
            Ok((items, q)) => Ok((ModuleView { tables: m.tables + items, ..m }, q)),
        }
    } else if id == 5 {
        match vec_at(p, 0, memory_item()) {
            Err(e) => Err(e),
            Ok((items, q)) => Ok((ModuleView { memories: m.memories + items, ..m }, q)),
        }
    } else if id == 6 {
        match vec_at(p, 0, global_item()) {
            Err(e) => Err(e),
            Ok((items, q)) => Ok((ModuleView { globals: m.globals + items, ..m }, q)),
        }
    } else if id == 7 {
        match vec_at(p, 0, export_item()) {
            Err(e) => Err(e),
            Ok((items, q)) => Ok((ModuleView { exports: m.exports + items, ..m }, q)),
        }
    } else if id == 8 {
        match u32_at(p, 0) {
            Err(e) => Err(e),
            Ok((v, q)) => Ok((ModuleView { start: Some(v), ..m }, q)),
        }
    } else if id == 9 {
        match vec_at(p, 0, element_item()) {
            Err(e) => Err(e),
            Ok((items, q)) => Ok((ModuleView { elements: m.elements + items, ..m }, q)),
        }
    } else if id == 10 {
        match vec_at(p, 0, body_item()) {
            Err(e) => Err(e),
            Ok((items, q)) => Ok((ModuleView { code: m.code + items, ..m }, q)),
        }
    } else if id == 11 {
        match vec_at(p, 0, data_item(m)) {
            Err(e) => Err(e),
            Ok((items, q)) => Ok((ModuleView { data: m.data + items, ..m }, q)),
        }
    } else {
        match u32_at(p, 0) {
            Err(e) => Err(e),
            Ok((v, q)) => Ok((ModuleView { data_count: Some(v), ..m }, q)),
        }
    }
}

/// Position of a standard section in the required order; DataCount (12) comes
/// after Element (9) and before Code (10) and Data (11).
pub open spec fn section_order(id: u8) -> u8 {
    if id == 12 {
        10
    } else if id == 10 {
        11
    } else if id == 11 {
        12
    } else {
        id
    }
}

/// What the section loop knows between sections.
pub struct SectionState {
    pub module: ModuleView,
    pub last_standard: u8,
    pub last_order: u8,
    pub seen: Seq<bool>,
}

/// The checks made once every section has been read.
pub open spec fn finish(m: ModuleView) -> Result<ModuleView, ParseError> {
    if m.function_type_indices.len() != m.code.len() {
        Err(
            ParseError::FunctionCodeLengthMismatch {
                functions: m.function_type_indices.len() as usize,
                bodies: m.code.len() as usize,
            },
        )
    } else {
        match m.data_count {
            Some(declared) => if declared as int != m.data.len() {
                Err(ParseError::DataCountMismatch { declared, actual: m.data.len() as usize })
            } else {
                Ok(m)
            },
            None => Ok(m),
        }
    }
}

/// The sections from `pos` on, each an id byte, a u32 length and that many payload bytes.
pub open spec fn sections_from(s: Seq<u8>, pos: int, st: SectionState) -> Result<
    ModuleView,
    ParseError,
>
    decreases s.len() - pos,
{
    if pos < 0 || pos >= s.len() {
        finish(st.module)
    } else {
        let id = s[pos];
        match u32_at(s, pos + 1) {
            Err(e) => Err(e),
            Ok((len, p1)) => match bytes_at(s, p1, len as int) {
                Err(e) => Err(e),
                Ok((payload, p2)) => {
                    if p2 <= pos {
                        // never taken: the length field takes at least one byte
                        Err(ParseError::UnexpectedEof)
                    } else if id == 0 {
                        match name_at(payload, 0) {
                            Err(e) => Err(e),
                            Ok(_) => sections_from(s, p2, st),
                        }
                    } else if id > 12 {
                        Err(ParseError::UnsupportedSection(id))
                    } else if section_order(id) < st.last_order {
                        Err(ParseError::SectionOutOfOrder { previous: st.last_standard, current: id })
                    } else if st.seen[id as int] {
                        Err(ParseError::DuplicateSection(id))
                    } else {
                        match section_at(id, payload, st.module) {
                            Err(e) => Err(e),
                            Ok((m2, q)) => if q != payload.len() {
                                Err(ParseError::SectionLengthMismatch(id))
                            } else {
                                sections_from(
                                    s,
                                    p2,
                                    SectionState {
                                        module: m2,
                                        last_standard: id,
                                        last_order: section_order(id),
                                        seen: st.seen.update(id as int, true),
                                    },
                                )
                            },
                        }
                    }
                },
            },
        }
    }
}

/// Every body ends in the `end` byte and every global's initializer has the global's type.
pub open spec fn module_items_ok(m: ModuleView) -> bool {
    &&& forall|i: int| 0 <= i < m.code.len() ==> body_ends(#[trigger] m.code[i])
    &&& forall|i: int| 0 <= i < m.globals.len() ==> global_typed(#[trigger] m.globals[i])
}

pub open spec fn body_ends(b: FunctionBodyView) -> bool {
    b.code.len() > 0 && b.code.last() == 0x0b
}

pub open spec fn global_typed(g: Global) -> bool {
    g.init.spec_value_type() == g.ty.value_type
}

/// Items read by `repeat` all satisfy `ok` when the ones already read do and every item that
/// `item` can read does.
proof fn lemma_repeat_all<T>(
    s: Seq<u8>,
    pos: int,
    n: nat,
    item: spec_fn(Seq<u8>, int) -> SResult<T>,
    acc: Seq<T>,
    ok: spec_fn(T) -> bool,
)
    requires
        forall|i: int| 0 <= i < acc.len() ==> ok(#[trigger] acc[i]),
        forall|q: int| #[trigger] item(s, q) is Ok ==> ok(item(s, q)->Ok_0.0),
    ensures
        repeat(s, pos, n, item, acc) matches Ok((items, _)) ==> forall|i: int|
            0 <= i < items.len() ==> ok(#[trigger] items[i]),
    decreases n,
{
    if n > 0 {
        if item(s, pos) is Ok {
            let (x, p) = item(s, pos)->Ok_0;
            let next = acc.push(x);
            assert forall|i: int| 0 <= i < next.len() implies ok(#[trigger] next[i]) by {
                if i < acc.len() {
                    assert(next[i] == acc[i]);
                }
            }
            lemma_repeat_all(s, p, (n - 1) as nat, item, next, ok);
        }
    }
}

proof fn lemma_section_keeps_items(id: u8, p: Seq<u8>, m: ModuleView)
    requires
        module_items_ok(m),
    ensures
        section_at(id, p, m) matches Ok((m2, _)) ==> module_items_ok(m2),
{
    reveal(section_at);
    if id == 6 {
        let ok = |g: Global| global_typed(g);
        match u32_at(p, 0) {
            Ok((n, q)) => {
                lemma_repeat_all(p, q, n as nat, global_item(), Seq::empty(), ok);
                if let Ok((items, _)) = vec_at(p, 0, global_item()) {
                    let all = m.globals + items;
                    assert forall|i: int| 0 <= i < all.len() implies global_typed(#[trigger] all[i]) by {
                        if i < m.globals.len() {
                            assert(all[i] == m.globals[i]);
                        } else {
                            assert(all[i] == items[i - m.globals.len()]);
                            assert(ok(items[i - m.globals.len()]));
                        }
                    }
                }
            },
            Err(_) => {},
        }
    } else if id == 10 {
        let ok = |b: FunctionBodyView| body_ends(b);
        match u32_at(p, 0) {
            Ok((n, q)) => {
                lemma_repeat_all(p, q, n as nat, body_item(), Seq::empty(), ok);
                if let Ok((items, _)) = vec_at(p, 0, body_item()) {
                    let all = m.code + items;
                    assert forall|i: int| 0 <= i < all.len() implies body_ends(#[trigger] all[i]) by {
                        if i < m.code.len() {
                            assert(all[i] == m.code[i]);
                        } else {
                            assert(all[i] == items[i - m.code.len()]);
                            assert(ok(items[i - m.code.len()]));
                        }
                    }
                }
            },
            Err(_) => {},
        }
    } else {
        if let Ok((m2, _)) = section_at(id, p, m) {
            assert(m2.code == m.code && m2.globals == m.globals);
        }
    }
}

proof fn lemma_sections_keep_items(s: Seq<u8>, pos: int, st: SectionState)
    requires
        module_items_ok(st.module),
    ensures
        sections_from(s, pos, st) matches Ok(m) ==> module_items_ok(m) && finish(m) == Ok::<
            ModuleView,
            ParseError,
        >(m),
    decreases s.len() - pos,
{
    if pos < 0 || pos >= s.len() {
    } else {
        let id = s[pos];
        if let Ok((len, p1)) = u32_at(s, pos + 1) {
            if let Ok((payload, p2)) = bytes_at(s, p1, len as int) {
                if p2 > pos && id != 0 && id <= 12 {
                    lemma_section_keeps_items(id, payload, st.module);
                    if let Ok((m2, _)) = section_at(id, payload, st.module) {
                        lemma_sections_keep_items(
                            s,
                            p2,
                            SectionState {
                                module: m2,
                                last_standard: id,
                                last_order: section_order(id),
                                seen: st.seen.update(id as int, true),
                            },
                        );
                    }
                } else if p2 > pos && id == 0 {
                    lemma_sections_keep_items(s, p2, st);
                }
            }
        }
    }
}

/// What `parse_module` accepts is well formed: as many bodies as declared functions, as many
/// data segments as a DataCount section declares, every body closed by `end`, and every
/// global initialised with a constant of its own type.
pub proof fn law_parsed_module_well_formed(s: Seq<u8>)
    ensures
        spec_parse_module(s) matches Ok(m) ==> {
            &&& m.function_type_indices.len() == m.code.len()
            &&& (m.data_count matches Some(n) ==> n as int == m.data.len())
            &&& forall|i: int| 0 <= i < m.code.len() ==> body_ends(#[trigger] m.code[i])
            &&& forall|i: int| 0 <= i < m.globals.len() ==> global_typed(#[trigger] m.globals[i])
        },
{
    if let Ok((_, p1)) = bytes_at(s, 0, 4) {
        if let Ok((_, p2)) = bytes_at(s, p1, 4) {
            lemma_sections_keep_items(
                s,
                p2,
                SectionState {
                    module: empty_module(),
                    last_standard: 0,
                    last_order: 0,
                    seen: Seq::new(13, |i: int| false),
                },
            );
        }
    }
}

/// The first four bytes of `b` as an array.
pub open spec fn array4(b: Seq<u8>) -> [u8; 4] {
    [b[0], b[1], b[2], b[3]]
}

pub open spec fn wasm_magic() -> Seq<u8> {
    seq![0x00u8, 0x61u8, 0x73u8, 0x6du8]
}

pub open spec fn wasm_version_1() -> Seq<u8> {
    seq![0x01u8, 0x00u8, 0x00u8, 0x00u8]
}

/// What `parse_module` returns for the bytes `s`.
pub open spec fn spec_parse_module(s: Seq<u8>) -> Result<ModuleView, ParseError> {
    match bytes_at(s, 0, 4) {
        Err(e) => Err(e),
        Ok((magic, p1)) => if magic != wasm_magic() {
            Err(ParseError::InvalidMagic(array4(magic)))
        } else {
            match bytes_at(s, p1, 4) {
                Err(e) => Err(e),
                Ok((version, p2)) => if version != wasm_version_1() {
                    Err(ParseError::UnsupportedVersion(array4(version)))
                } else {
                    sections_from(
                        s,
                        p2,
                        SectionState {
                            module: empty_module(),
                            last_standard: 0,
                            last_order: 0,
                            seen: Seq::new(13, |i: int| false),
                        },
                    )
                },
            }
        },
    }
}

} // verus!
