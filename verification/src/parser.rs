//! Minimal, fail-closed WebAssembly binary parser.
use vstd::prelude::*;
use crate::cursor::{Cursor, read_as};
use crate::error::ParseError;
use crate::grammar::{
    repeat, vec_at, u32_at, value_type_at, value_type_item, mutability_at, limits_at,
    const_expr_at, const_expr_ending_at, i32_const_expr_at, data_offset_at, element_kind_at, func_type_at,
    func_type_item, import_at, import_item, u32_item, table_type_at, table_item, memory_type_at,
    memory_item, global_at, global_item, export_at, export_item, element_mode_at, element_at,
    element_item, local_group_item, body_at, body_item, data_at, data_item, rest,
    spec_parse_module, sections_from, SectionState, section_at, wasm_magic, wasm_version_1, array4,
};
use crate::leb128::lemma_u32_leb_from_ok;
use crate::types::{
    Constant, DataMode, DataSegment, DataSegmentView, ElementMode, ElementSegment,
    ElementSegmentView, Export, ExportKind, ExportView, FuncType, FuncTypeView, FunctionBody,
    FunctionBodyView, Global, GlobalType, Import, ImportDesc, ImportView, Limits, MemoryType,
    Module, ModuleView, TableType, ValueType, func_type_view, import_view, export_view,
    element_view, body_view, data_view, lemma_map_values_push, lemma_map_values_add,
};
use vstd::slice::slice_to_vec;

verus! {

pub fn read_value_type(cursor: &mut Cursor<'_>) -> (r: Result<ValueType, ParseError>)
    requires
        old(cursor).wf(),
    ensures
        read_as(*old(cursor), *final(cursor), r, value_type_at(old(cursor).bytes@, old(cursor).offset as int)),
{
    let byte = cursor.read_u8()?;
    if byte == 0x7f {
        Ok(ValueType::I32)
    } else if byte == 0x7e {
        Ok(ValueType::I64)
    } else if byte == 0x7d {
        Ok(ValueType::F32)
    } else if byte == 0x7c {
        Ok(ValueType::F64)
    } else if byte == 0x70 {
        Ok(ValueType::FuncRef)
    } else {
        Err(ParseError::UnsupportedValueType(byte))
    }
}

pub fn read_value_type_vec(cursor: &mut Cursor<'_>) -> (r: Result<Vec<ValueType>, ParseError>)
    requires
        old(cursor).wf(),
    ensures
        final(cursor).bytes@ == old(cursor).bytes@,
        final(cursor).wf(),
        match vec_at(old(cursor).bytes@, old(cursor).offset as int, value_type_item()) {
            Ok((items, p)) => r matches Ok(v) && v@ == items && final(cursor).offset == p,
            Err(e) => r == Err::<Vec<ValueType>, ParseError>(e),
        },
{
    let ghost s = cursor.bytes@;
    let count = cursor.read_u32()?;
    let ghost start = cursor.offset as int;
    let mut values: Vec<ValueType> = Vec::new();
    let mut i: u32 = 0;
    while i < count
        invariant
            cursor.wf(),
            cursor.bytes@ == s,
            old(cursor).bytes@ == s,
            i <= count,
            vec_at(s, old(cursor).offset as int, value_type_item()) == repeat(
                s,
                start,
                count as nat,
                value_type_item(),
                Seq::empty(),
            ),
            repeat(s, start, count as nat, value_type_item(), Seq::empty()) == repeat(
                s,
                cursor.offset as int,
                (count - i) as nat,
                value_type_item(),
                values@,
            ),
        decreases count - i,
    {
        let v = read_value_type(cursor)?;
        values.push(v);
        i = i + 1;
    }
    Ok(values)
}

pub fn read_mutability(cursor: &mut Cursor<'_>) -> (r: Result<bool, ParseError>)
    requires
        old(cursor).wf(),
    ensures
        read_as(*old(cursor), *final(cursor), r, mutability_at(old(cursor).bytes@, old(cursor).offset as int)),
{
    let byte = cursor.read_u8()?;
    if byte == 0 {
        Ok(false)
    } else if byte == 1 {
        Ok(true)
    } else {
        Err(ParseError::InvalidMutability(byte))
    }
}

/// Limits; with `allow_memory64` the 64-bit memory forms are accepted as well,
/// and the second component reports whether one was read.
pub fn read_limits(cursor: &mut Cursor<'_>, allow_memory64: bool) -> (r: Result<(Limits, bool), ParseError>)
    requires
        old(cursor).wf(),
    ensures
        read_as(*old(cursor), *final(cursor), r, limits_at(old(cursor).bytes@, old(cursor).offset as int, allow_memory64)),
{
    let flags = cursor.read_u8()?;
    let min = cursor.read_u32()?;
    if flags == 0 || (allow_memory64 && flags == 4) {
        Ok((Limits { min, max: None }, flags == 4))
    } else if flags == 1 || (allow_memory64 && flags == 5) {
        let max = cursor.read_u32()?;
        Ok((Limits { min, max: Some(max) }, flags == 5))
    } else {
        Err(ParseError::InvalidLimitsFlags(flags))
    }
}

pub fn read_const_expr(cursor: &mut Cursor<'_>) -> (r: Result<Constant, ParseError>)
    requires
        old(cursor).wf(),
    ensures
        read_as(*old(cursor), *final(cursor), r, const_expr_at(old(cursor).bytes@, old(cursor).offset as int)),
{
    read_const_expr_ending(cursor, false)
}

/// Reads a constant instruction and its end byte; `offset` chooses, as in
/// `const_expr_ending_at`, the error for input that ends before the end byte.
fn read_const_expr_ending(cursor: &mut Cursor<'_>, offset: bool) -> (r: Result<Constant, ParseError>)
    requires
        old(cursor).wf(),
    ensures
        read_as(
            *old(cursor),
            *final(cursor),
            r,
            const_expr_ending_at(old(cursor).bytes@, old(cursor).offset as int, offset),
        ),
{
    let opcode = cursor.read_u8()?;
    let value = if opcode == 0x41 {
        Constant::I32(cursor.read_i32()?)
    } else if opcode == 0x42 {
        Constant::I64(cursor.read_i64()?)
    } else if opcode == 0x43 {
        Constant::F32(cursor.read_u32_le()?)
    } else if opcode == 0x44 {
        Constant::F64(cursor.read_u64_le()?)
    } else {
        return Err(ParseError::InvalidConstExprOpcode(opcode));
    };
    let terminator = match cursor.read_u8() {
        Ok(byte) => byte,
        Err(_) => {
            if offset {
                return Err(ParseError::UnexpectedEof);
            }
            return Err(ParseError::ConstExprMissingEnd);
        },
    };
    if terminator != 0x0b {
        return Err(ParseError::ConstExprMissingEnd);
    }
    Ok(value)
}

pub fn read_i32_const_expr(cursor: &mut Cursor<'_>) -> (r: Result<i32, ParseError>)
    requires
        old(cursor).wf(),
    ensures
        read_as(*old(cursor), *final(cursor), r, i32_const_expr_at(old(cursor).bytes@, old(cursor).offset as int)),
{
    match read_const_expr_ending(cursor, true)? {
        Constant::I32(value) => Ok(value),
        other => Err(ParseError::ConstExprTypeMismatch { expected: ValueType::I32, actual: other.value_type() }),
    }
}

/// The offset expression of an active data segment whose target memory is
/// 64-bit when `memory64` holds, as an unsigned address.
pub fn read_data_offset(cursor: &mut Cursor<'_>, memory64: bool) -> (r: Result<u64, ParseError>)
    requires
        old(cursor).wf(),
    ensures
        read_as(*old(cursor), *final(cursor), r, data_offset_at(old(cursor).bytes@, old(cursor).offset as int, memory64)),
{
    let init = read_const_expr_ending(cursor, true)?;
    if memory64 {
        match init {
            Constant::I64(value) => Ok(value as u64),
            other => Err(ParseError::ConstExprTypeMismatch { expected: ValueType::I64, actual: other.value_type() }),
        }
    } else {
        match init {
            Constant::I32(value) => Ok((value as u32) as u64),
            other => Err(ParseError::ConstExprTypeMismatch { expected: ValueType::I32, actual: other.value_type() }),
        }
    }
}

pub fn read_legacy_element_kind(cursor: &mut Cursor<'_>) -> (r: Result<(), ParseError>)
    requires
        old(cursor).wf(),
    ensures
        read_as(*old(cursor), *final(cursor), r, element_kind_at(old(cursor).bytes@, old(cursor).offset as int)),
{
    let kind = cursor.read_u8()?;
    if kind == 0x00 {
        Ok(())
    } else {
        Err(ParseError::InvalidElementKind(kind))
    }
}

pub fn read_func_type(cursor: &mut Cursor<'_>) -> (r: Result<FuncType, ParseError>)
    requires
        old(cursor).wf(),
    ensures
        final(cursor).bytes@ == old(cursor).bytes@,
        final(cursor).wf(),
        match func_type_at(old(cursor).bytes@, old(cursor).offset as int) {
            Ok((t, p)) => r matches Ok(x) && x@ == t && final(cursor).offset == p,
            Err(e) => r == Err::<FuncType, ParseError>(e),
        },
{
    let tag = cursor.read_u8()?;
    if tag != 0x60 {
        return Err(ParseError::InvalidFunctionType(tag));
    }
    let params = read_value_type_vec(cursor)?;
    let results = read_value_type_vec(cursor)?;
    Ok(FuncType { params, results })
}

fn parse_type_section(cursor: &mut Cursor<'_>, module: &mut Module) -> (r: Result<(), ParseError>)
    requires
        old(cursor).wf(),
    ensures
        final(cursor).bytes@ == old(cursor).bytes@,
        final(cursor).wf(),
        match vec_at(old(cursor).bytes@, old(cursor).offset as int, func_type_item()) {
            Ok((items, p)) => r is Ok && final(cursor).offset == p && final(module)@ == (ModuleView {
                types: old(module)@.types + items,
                ..old(module)@
            }),
            Err(e) => r == Err::<(), ParseError>(e),
        },
{
    let ghost s = cursor.bytes@;
    let count = cursor.read_u32()?;
    let ghost start = cursor.offset as int;
    let ghost mut acc: Seq<FuncTypeView> = Seq::empty();
    let mut items: Vec<FuncType> = Vec::new();
    let mut i: u32 = 0;
    while i < count
        invariant
            cursor.wf(),
            cursor.bytes@ == s,
            old(cursor).bytes@ == s,
            i <= count,
            module@ == old(module)@,
            vec_at(s, old(cursor).offset as int, func_type_item()) == repeat(
                s,
                start,
                count as nat,
                func_type_item(),
                Seq::empty(),
            ),
            repeat(s, start, count as nat, func_type_item(), Seq::empty()) == repeat(
                s,
                cursor.offset as int,
                (count - i) as nat,
                func_type_item(),
                acc,
            ),
            items@.map_values(func_type_view()) == acc,
        decreases count - i,
    {
        let x = read_func_type(cursor)?;
        proof {
            lemma_map_values_push(items@, x, func_type_view());
            acc = acc.push((func_type_view())(x));
        }
        items.push(x);
        i = i + 1;
    }
    let ghost before = module.types@;
    let ghost parsed = items@;
    module.types.append(&mut items);
    proof {
        lemma_map_values_add(before, parsed, func_type_view());
    }
    Ok(())
}

pub fn read_import(cursor: &mut Cursor<'_>) -> (r: Result<Import, ParseError>)
    requires
        old(cursor).wf(),
    ensures
        final(cursor).bytes@ == old(cursor).bytes@,
        final(cursor).wf(),
        match import_at(old(cursor).bytes@, old(cursor).offset as int) {
            Ok((t, p)) => r matches Ok(x) && x@ == t && final(cursor).offset == p,
            Err(e) => r == Err::<Import, ParseError>(e),
        },
{
    let import_module = cursor.read_name()?;
    let name = cursor.read_name()?;
    let kind = cursor.read_u8()?;
    let desc = if kind == 0x00 {
        ImportDesc::Function(cursor.read_u32()?)
    } else if kind == 0x01 {
        ImportDesc::Table(read_table_type(cursor)?)
    } else if kind == 0x02 {
        ImportDesc::Memory(read_memory_type(cursor)?)
    } else if kind == 0x03 {
        let value_type = read_value_type(cursor)?;
        let mutable = read_mutability(cursor)?;
        ImportDesc::Global(GlobalType { value_type, mutable })
    } else {
        return Err(ParseError::InvalidImportKind(kind));
    };
    Ok(Import { module: import_module, name, desc })
}

fn parse_import_section(cursor: &mut Cursor<'_>, module: &mut Module) -> (r: Result<(), ParseError>)
    requires
        old(cursor).wf(),
    ensures
        final(cursor).bytes@ == old(cursor).bytes@,
        final(cursor).wf(),
        match vec_at(old(cursor).bytes@, old(cursor).offset as int, import_item()) {
            Ok((items, p)) => r is Ok && final(cursor).offset == p && final(module)@ == (ModuleView {
                imports: old(module)@.imports + items,
                ..old(module)@
            }),
            Err(e) => r == Err::<(), ParseError>(e),
        },
{
    let ghost s = cursor.bytes@;
    let count = cursor.read_u32()?;
    let ghost start = cursor.offset as int;
    let ghost mut acc: Seq<ImportView> = Seq::empty();
    let mut items: Vec<Import> = Vec::new();
    let mut i: u32 = 0;
    while i < count
        invariant
            cursor.wf(),
            cursor.bytes@ == s,
            old(cursor).bytes@ == s,
            i <= count,
            module@ == old(module)@,
            vec_at(s, old(cursor).offset as int, import_item()) == repeat(
                s,
                start,
                count as nat,
                import_item(),
                Seq::empty(),
            ),
            repeat(s, start, count as nat, import_item(), Seq::empty()) == repeat(
                s,
                cursor.offset as int,
                (count - i) as nat,
                import_item(),
                acc,
            ),
            items@.map_values(import_view()) == acc,
        decreases count - i,
    {
        let x = read_import(cursor)?;
        proof {
            lemma_map_values_push(items@, x, import_view());
            acc = acc.push((import_view())(x));
        }
        items.push(x);
        i = i + 1;
    }
    let ghost before = module.imports@;
    let ghost parsed = items@;
    module.imports.append(&mut items);
    proof {
        lemma_map_values_add(before, parsed, import_view());
    }
    Ok(())
}

fn parse_function_section(cursor: &mut Cursor<'_>, module: &mut Module) -> (r: Result<(), ParseError>)
    requires
        old(cursor).wf(),
    ensures
        final(cursor).bytes@ == old(cursor).bytes@,
        final(cursor).wf(),
        match vec_at(old(cursor).bytes@, old(cursor).offset as int, u32_item()) {
            Ok((items, p)) => r is Ok && final(cursor).offset == p && final(module)@ == (ModuleView {
                function_type_indices: old(module)@.function_type_indices + items,
                ..old(module)@
            }),
            Err(e) => r == Err::<(), ParseError>(e),
        },
{
    let ghost s = cursor.bytes@;
    let count = cursor.read_u32()?;
    let ghost start = cursor.offset as int;
    let ghost mut acc: Seq<u32> = Seq::empty();
    let mut items: Vec<u32> = Vec::new();
    let mut i: u32 = 0;
    while i < count
        invariant
            cursor.wf(),
            cursor.bytes@ == s,
            old(cursor).bytes@ == s,
            i <= count,
            module@ == old(module)@,
            vec_at(s, old(cursor).offset as int, u32_item()) == repeat(
                s,
                start,
                count as nat,
                u32_item(),
                Seq::empty(),
            ),
            repeat(s, start, count as nat, u32_item(), Seq::empty()) == repeat(
                s,
                cursor.offset as int,
                (count - i) as nat,
                u32_item(),
                acc,
            ),
            items@ == acc,
        decreases count - i,
    {
        let x = cursor.read_u32()?;
        proof {
            acc = acc.push(x);
        }
        items.push(x);
        i = i + 1;
    }
    module.function_type_indices.append(&mut items);
    Ok(())
}

/// A funcref table type: the reference-type byte, then limits.
pub fn read_table_type(cursor: &mut Cursor<'_>) -> (r: Result<TableType, ParseError>)
    requires
        old(cursor).wf(),
    ensures
        read_as(*old(cursor), *final(cursor), r, table_type_at(old(cursor).bytes@, old(cursor).offset as int)),
{
    let reference_type = cursor.read_u8()?;
    if reference_type != 0x70 {
        return Err(ParseError::InvalidReferenceType(reference_type));
    }
    let (limits, _) = read_limits(cursor, false)?;
    Ok(TableType { limits })
}

pub fn read_memory_type(cursor: &mut Cursor<'_>) -> (r: Result<MemoryType, ParseError>)
    requires
        old(cursor).wf(),
    ensures
        read_as(*old(cursor), *final(cursor), r, memory_type_at(old(cursor).bytes@, old(cursor).offset as int)),
{
    let (limits, memory64) = read_limits(cursor, true)?;
    Ok(MemoryType { limits, memory64 })
}

fn parse_table_section(cursor: &mut Cursor<'_>, module: &mut Module) -> (r: Result<(), ParseError>)
    requires
        old(cursor).wf(),
    ensures
        final(cursor).bytes@ == old(cursor).bytes@,
        final(cursor).wf(),
        match vec_at(old(cursor).bytes@, old(cursor).offset as int, table_item()) {
            Ok((items, p)) => r is Ok && final(cursor).offset == p && final(module)@ == (ModuleView {
                tables: old(module)@.tables + items,
                ..old(module)@
            }),
            Err(e) => r == Err::<(), ParseError>(e),
        },
{
    let ghost s = cursor.bytes@;
    let count = cursor.read_u32()?;
    let ghost start = cursor.offset as int;
    let ghost mut acc: Seq<TableType> = Seq::empty();
    let mut items: Vec<TableType> = Vec::new();
    let mut i: u32 = 0;
    while i < count
        invariant
            cursor.wf(),
            cursor.bytes@ == s,
            old(cursor).bytes@ == s,
            i <= count,
            module@ == old(module)@,
            vec_at(s, old(cursor).offset as int, table_item()) == repeat(
                s,
                start,
                count as nat,
                table_item(),
                Seq::empty(),
            ),
            repeat(s, start, count as nat, table_item(), Seq::empty()) == repeat(
                s,
                cursor.offset as int,
                (count - i) as nat,
                table_item(),
                acc,
            ),
            items@ == acc,
        decreases count - i,
    {
        let x = read_table_type(cursor)?;
        proof {
            acc = acc.push(x);
        }
        items.push(x);
        i = i + 1;
    }
    module.tables.append(&mut items);
    Ok(())
}

fn parse_memory_section(cursor: &mut Cursor<'_>, module: &mut Module) -> (r: Result<(), ParseError>)
    requires
        old(cursor).wf(),
    ensures
        final(cursor).bytes@ == old(cursor).bytes@,
        final(cursor).wf(),
        match vec_at(old(cursor).bytes@, old(cursor).offset as int, memory_item()) {
            Ok((items, p)) => r is Ok && final(cursor).offset == p && final(module)@ == (ModuleView {
                memories: old(module)@.memories + items,
                ..old(module)@
            }),
            Err(e) => r == Err::<(), ParseError>(e),
        },
{
    let ghost s = cursor.bytes@;
    let count = cursor.read_u32()?;
    let ghost start = cursor.offset as int;
    let ghost mut acc: Seq<MemoryType> = Seq::empty();
    let mut items: Vec<MemoryType> = Vec::new();
    let mut i: u32 = 0;
    while i < count
        invariant
            cursor.wf(),
            cursor.bytes@ == s,
            old(cursor).bytes@ == s,
            i <= count,
            module@ == old(module)@,
            vec_at(s, old(cursor).offset as int, memory_item()) == repeat(
                s,
                start,
                count as nat,
                memory_item(),
                Seq::empty(),
            ),
            repeat(s, start, count as nat, memory_item(), Seq::empty()) == repeat(
                s,
                cursor.offset as int,
                (count - i) as nat,
                memory_item(),
                acc,
            ),
            items@ == acc,
        decreases count - i,
    {
        let x = read_memory_type(cursor)?;
        proof {
            acc = acc.push(x);
        }
        items.push(x);
        i = i + 1;
    }
    module.memories.append(&mut items);
    Ok(())
}

pub fn read_global(cursor: &mut Cursor<'_>) -> (r: Result<Global, ParseError>)
    requires
        old(cursor).wf(),
    ensures
        read_as(*old(cursor), *final(cursor), r, global_at(old(cursor).bytes@, old(cursor).offset as int)),
{
    let value_type = read_value_type(cursor)?;
    let mutable = read_mutability(cursor)?;
    let init = read_const_expr(cursor)?;
    let actual = init.value_type();
    if actual != value_type {
        return Err(ParseError::ConstExprTypeMismatch { expected: value_type, actual });
    }
    Ok(Global { ty: GlobalType { value_type, mutable }, init })
}

fn parse_global_section(cursor: &mut Cursor<'_>, module: &mut Module) -> (r: Result<(), ParseError>)
    requires
        old(cursor).wf(),
    ensures
        final(cursor).bytes@ == old(cursor).bytes@,
        final(cursor).wf(),
        match vec_at(old(cursor).bytes@, old(cursor).offset as int, global_item()) {
            Ok((items, p)) => r is Ok && final(cursor).offset == p && final(module)@ == (ModuleView {
                globals: old(module)@.globals + items,
                ..old(module)@
            }),
            Err(e) => r == Err::<(), ParseError>(e),
        },
{
    let ghost s = cursor.bytes@;
    let count = cursor.read_u32()?;
    let ghost start = cursor.offset as int;
    let ghost mut acc: Seq<Global> = Seq::empty();
    let mut items: Vec<Global> = Vec::new();
    let mut i: u32 = 0;
    while i < count
        invariant
            cursor.wf(),
            cursor.bytes@ == s,
            old(cursor).bytes@ == s,
            i <= count,
            module@ == old(module)@,
            vec_at(s, old(cursor).offset as int, global_item()) == repeat(
                s,
                start,
                count as nat,
                global_item(),
                Seq::empty(),
            ),
            repeat(s, start, count as nat, global_item(), Seq::empty()) == repeat(
                s,
                cursor.offset as int,
                (count - i) as nat,
                global_item(),
                acc,
            ),
            items@ == acc,
        decreases count - i,
    {
        let x = read_global(cursor)?;
        proof {
            acc = acc.push(x);
        }
        items.push(x);
        i = i + 1;
    }
    module.globals.append(&mut items);
    Ok(())
}

pub fn read_export(cursor: &mut Cursor<'_>) -> (r: Result<Export, ParseError>)
    requires
        old(cursor).wf(),
    ensures
        final(cursor).bytes@ == old(cursor).bytes@,
        final(cursor).wf(),
        match export_at(old(cursor).bytes@, old(cursor).offset as int) {
            Ok((t, p)) => r matches Ok(x) && x@ == t && final(cursor).offset == p,
            Err(e) => r == Err::<Export, ParseError>(e),
        },
{
    let name = cursor.read_name()?;
    let byte = cursor.read_u8()?;
    let kind = if byte == 0 {
        ExportKind::Function
    } else if byte == 1 {
        ExportKind::Table
    } else if byte == 2 {
        ExportKind::Memory
    } else if byte == 3 {
        ExportKind::Global
    } else {
        return Err(ParseError::InvalidExportKind(byte));
    };
    let index = cursor.read_u32()?;
    Ok(Export { name, kind, index })
}

fn parse_export_section(cursor: &mut Cursor<'_>, module: &mut Module) -> (r: Result<(), ParseError>)
    requires
        old(cursor).wf(),
    ensures
        final(cursor).bytes@ == old(cursor).bytes@,
        final(cursor).wf(),
        match vec_at(old(cursor).bytes@, old(cursor).offset as int, export_item()) {
            Ok((items, p)) => r is Ok && final(cursor).offset == p && final(module)@ == (ModuleView {
                exports: old(module)@.exports + items,
                ..old(module)@
            }),
            Err(e) => r == Err::<(), ParseError>(e),
        },
{
    let ghost s = cursor.bytes@;
    let count = cursor.read_u32()?;
    let ghost start = cursor.offset as int;
    let ghost mut acc: Seq<ExportView> = Seq::empty();
    let mut items: Vec<Export> = Vec::new();
    let mut i: u32 = 0;
    while i < count
        invariant
            cursor.wf(),
            cursor.bytes@ == s,
            old(cursor).bytes@ == s,
            i <= count,
            module@ == old(module)@,
            vec_at(s, old(cursor).offset as int, export_item()) == repeat(
                s,
                start,
                count as nat,
                export_item(),
                Seq::empty(),
            ),
            repeat(s, start, count as nat, export_item(), Seq::empty()) == repeat(
                s,
                cursor.offset as int,
                (count - i) as nat,
                export_item(),
                acc,
            ),
            items@.map_values(export_view()) == acc,
        decreases count - i,
    {
        let x = read_export(cursor)?;
        proof {
            lemma_map_values_push(items@, x, export_view());
            acc = acc.push((export_view())(x));
        }
        items.push(x);
        i = i + 1;
    }
    let ghost before = module.exports@;
    let ghost parsed = items@;
    module.exports.append(&mut items);
    proof {
        lemma_map_values_add(before, parsed, export_view());
    }
    Ok(())
}

fn parse_start_section(cursor: &mut Cursor<'_>, module: &mut Module) -> (r: Result<(), ParseError>)
    requires
        old(cursor).wf(),
    ensures
        final(cursor).bytes@ == old(cursor).bytes@,
        final(cursor).wf(),
        match u32_at(old(cursor).bytes@, old(cursor).offset as int) {
            Ok((v, p)) => r is Ok && final(cursor).offset == p && final(module)@ == (ModuleView {
                start: Some(v),
                ..old(module)@
            }),
            Err(e) => r == Err::<(), ParseError>(e),
        },
{
    module.start = Some(cursor.read_u32()?);
    Ok(())
}

pub fn read_element_mode(cursor: &mut Cursor<'_>) -> (r: Result<ElementMode, ParseError>)
    requires
        old(cursor).wf(),
    ensures
        read_as(*old(cursor), *final(cursor), r, element_mode_at(old(cursor).bytes@, old(cursor).offset as int)),
{
    let flags = cursor.read_u32()?;
    if flags == 0 {
        Ok(ElementMode::Active { table_index: 0, offset: read_i32_const_expr(cursor)? })
    } else if flags == 1 {
        read_legacy_element_kind(cursor)?;
        Ok(ElementMode::Passive)
    } else if flags == 2 {
        let table_index = cursor.read_u32()?;
        let offset = read_i32_const_expr(cursor)?;
        read_legacy_element_kind(cursor)?;
        Ok(ElementMode::Active { table_index, offset })
    } else if flags == 3 {
        read_legacy_element_kind(cursor)?;
        Ok(ElementMode::Declarative)
    } else {
        Err(ParseError::UnsupportedElementSegmentMode(flags))
    }
}

pub fn read_u32_vec(cursor: &mut Cursor<'_>) -> (r: Result<Vec<u32>, ParseError>)
    requires
        old(cursor).wf(),
    ensures
        final(cursor).bytes@ == old(cursor).bytes@,
        final(cursor).wf(),
        match vec_at(old(cursor).bytes@, old(cursor).offset as int, u32_item()) {
            Ok((items, p)) => r matches Ok(v) && v@ == items && final(cursor).offset == p,
            Err(e) => r == Err::<Vec<u32>, ParseError>(e),
        },
{
    let ghost s = cursor.bytes@;
    let count = cursor.read_u32()?;
    let ghost start = cursor.offset as int;
    let mut values: Vec<u32> = Vec::new();
    let mut i: u32 = 0;
    while i < count
        invariant
            cursor.wf(),
            cursor.bytes@ == s,
            old(cursor).bytes@ == s,
            i <= count,
            vec_at(s, old(cursor).offset as int, u32_item()) == repeat(
                s,
                start,
                count as nat,
                u32_item(),
                Seq::empty(),
            ),
            repeat(s, start, count as nat, u32_item(), Seq::empty()) == repeat(
                s,
                cursor.offset as int,
                (count - i) as nat,
                u32_item(),
                values@,
            ),
        decreases count - i,
    {
        values.push(cursor.read_u32()?);
        i = i + 1;
    }
    Ok(values)
}

pub fn read_element(cursor: &mut Cursor<'_>) -> (r: Result<ElementSegment, ParseError>)
    requires
        old(cursor).wf(),
    ensures
        final(cursor).bytes@ == old(cursor).bytes@,
        final(cursor).wf(),
        match element_at(old(cursor).bytes@, old(cursor).offset as int) {
            Ok((t, p)) => r matches Ok(x) && x@ == t && final(cursor).offset == p,
            Err(e) => r == Err::<ElementSegment, ParseError>(e),
        },
{
    let mode = read_element_mode(cursor)?;
    let function_indices = read_u32_vec(cursor)?;
    Ok(ElementSegment { mode, function_indices })
}

fn parse_element_section(cursor: &mut Cursor<'_>, module: &mut Module) -> (r: Result<(), ParseError>)
    requires
        old(cursor).wf(),
    ensures
        final(cursor).bytes@ == old(cursor).bytes@,
        final(cursor).wf(),
        match vec_at(old(cursor).bytes@, old(cursor).offset as int, element_item()) {
            Ok((items, p)) => r is Ok && final(cursor).offset == p && final(module)@ == (ModuleView {
                elements: old(module)@.elements + items,
                ..old(module)@
            }),
            Err(e) => r == Err::<(), ParseError>(e),
        },
{
    let ghost s = cursor.bytes@;
    let count = cursor.read_u32()?;
    let ghost start = cursor.offset as int;
    let ghost mut acc: Seq<ElementSegmentView> = Seq::empty();
    let mut items: Vec<ElementSegment> = Vec::new();
    let mut i: u32 = 0;
    while i < count
        invariant
            cursor.wf(),
            cursor.bytes@ == s,
            old(cursor).bytes@ == s,
            i <= count,
            module@ == old(module)@,
            vec_at(s, old(cursor).offset as int, element_item()) == repeat(
                s,
                start,
                count as nat,
                element_item(),
                Seq::empty(),
            ),
            repeat(s, start, count as nat, element_item(), Seq::empty()) == repeat(
                s,
                cursor.offset as int,
                (count - i) as nat,
                element_item(),
                acc,
            ),
            items@.map_values(element_view()) == acc,
        decreases count - i,
    {
        let x = read_element(cursor)?;
        proof {
            lemma_map_values_push(items@, x, element_view());
            acc = acc.push((element_view())(x));
        }
        items.push(x);
        i = i + 1;
    }
    let ghost before = module.elements@;
    let ghost parsed = items@;
    module.elements.append(&mut items);
    proof {
        lemma_map_values_add(before, parsed, element_view());
    }
    Ok(())
}

pub fn read_local_groups(cursor: &mut Cursor<'_>) -> (r: Result<Vec<(u32, ValueType)>, ParseError>)
    requires
        old(cursor).wf(),
    ensures
        final(cursor).bytes@ == old(cursor).bytes@,
        final(cursor).wf(),
        match vec_at(old(cursor).bytes@, old(cursor).offset as int, local_group_item()) {
            Ok((items, p)) => r matches Ok(v) && v@ == items && final(cursor).offset == p,
            Err(e) => r == Err::<Vec<(u32, ValueType)>, ParseError>(e),
        },
{
    let ghost s = cursor.bytes@;
    let count = cursor.read_u32()?;
    let ghost start = cursor.offset as int;
    let mut locals: Vec<(u32, ValueType)> = Vec::new();
    let mut i: u32 = 0;
    while i < count
        invariant
            cursor.wf(),
            cursor.bytes@ == s,
            old(cursor).bytes@ == s,
            i <= count,
            vec_at(s, old(cursor).offset as int, local_group_item()) == repeat(
                s,
                start,
                count as nat,
                local_group_item(),
                Seq::empty(),
            ),
            repeat(s, start, count as nat, local_group_item(), Seq::empty()) == repeat(
                s,
                cursor.offset as int,
                (count - i) as nat,
                local_group_item(),
                locals@,
            ),
        decreases count - i,
    {
        let count = cursor.read_u32()?;
        let ty = read_value_type(cursor)?;
        locals.push((count, ty));
        i = i + 1;
    }
    Ok(locals)
}

pub fn read_function_body(cursor: &mut Cursor<'_>) -> (r: Result<FunctionBody, ParseError>)
    requires
        old(cursor).wf(),
    ensures
        final(cursor).bytes@ == old(cursor).bytes@,
        final(cursor).wf(),
        match body_at(old(cursor).bytes@, old(cursor).offset as int) {
            Ok((t, p)) => r matches Ok(x) && x@ == t && final(cursor).offset == p,
            Err(e) => r == Err::<FunctionBody, ParseError>(e),
        },
{
    let body_len = cursor.read_u32()? as usize;
    let body_bytes = cursor.read_exact(body_len)?;
    let mut body = Cursor::new(body_bytes);
    let locals = read_local_groups(&mut body)?;
    let code = slice_to_vec(body.remaining());
    if code.len() == 0 || code[code.len() - 1] != 0x0b {
        return Err(ParseError::FunctionBodyMissingEnd);
    }
    body.consume_remaining();
    Ok(FunctionBody { locals, code })
}

fn parse_code_section(cursor: &mut Cursor<'_>, module: &mut Module) -> (r: Result<(), ParseError>)
    requires
        old(cursor).wf(),
    ensures
        final(cursor).bytes@ == old(cursor).bytes@,
        final(cursor).wf(),
        match vec_at(old(cursor).bytes@, old(cursor).offset as int, body_item()) {
            Ok((items, p)) => r is Ok && final(cursor).offset == p && final(module)@ == (ModuleView {
                code: old(module)@.code + items,
                ..old(module)@
            }),
            Err(e) => r == Err::<(), ParseError>(e),
        },
{
    let ghost s = cursor.bytes@;
    let count = cursor.read_u32()?;
    let ghost start = cursor.offset as int;
    let ghost mut acc: Seq<FunctionBodyView> = Seq::empty();
    let mut items: Vec<FunctionBody> = Vec::new();
    let mut i: u32 = 0;
    while i < count
        invariant
            cursor.wf(),
            cursor.bytes@ == s,
            old(cursor).bytes@ == s,
            i <= count,
            module@ == old(module)@,
            vec_at(s, old(cursor).offset as int, body_item()) == repeat(
                s,
                start,
                count as nat,
                body_item(),
                Seq::empty(),
            ),
            repeat(s, start, count as nat, body_item(), Seq::empty()) == repeat(
                s,
                cursor.offset as int,
                (count - i) as nat,
                body_item(),
                acc,
            ),
            items@.map_values(body_view()) == acc,
        decreases count - i,
    {
        let x = read_function_body(cursor)?;
        proof {
            lemma_map_values_push(items@, x, body_view());
            acc = acc.push((body_view())(x));
        }
        items.push(x);
        i = i + 1;
    }
    let ghost before = module.code@;
    let ghost parsed = items@;
    module.code.append(&mut items);
    proof {
        lemma_map_values_add(before, parsed, body_view());
    }
    Ok(())
}

pub fn read_data_segment(cursor: &mut Cursor<'_>, module: &Module) -> (r: Result<DataSegment, ParseError>)
    requires
        old(cursor).wf(),
    ensures
        final(cursor).bytes@ == old(cursor).bytes@,
        final(cursor).wf(),
        match data_at(old(cursor).bytes@, old(cursor).offset as int, module@) {
            Ok((t, p)) => r matches Ok(x) && x@ == t && final(cursor).offset == p,
            Err(e) => r == Err::<DataSegment, ParseError>(e),
        },
{
    let flags = cursor.read_u32()?;
    let mode = if flags == 0 {
        let memory64 = match module.memory_type(0) {
            Some(ty) => ty.memory64,
            None => false,
        };
        DataMode::Active { memory_index: 0, offset: read_data_offset(cursor, memory64)? }
    } else if flags == 1 {
        DataMode::Passive
    } else if flags == 2 {
        let memory_index = cursor.read_u32()?;
        let memory64 = match module.memory_type(memory_index) {
            Some(ty) => ty.memory64,
            None => false,
        };
        DataMode::Active { memory_index, offset: read_data_offset(cursor, memory64)? }
    } else {
        return Err(ParseError::UnsupportedDataSegmentMode(flags));
    };
    let len = cursor.read_u32()? as usize;
    let bytes = slice_to_vec(cursor.read_exact(len)?);
    Ok(DataSegment { mode, bytes })
}

fn parse_data_section(cursor: &mut Cursor<'_>, module: &mut Module) -> (r: Result<(), ParseError>)
    requires
        old(cursor).wf(),
    ensures
        final(cursor).bytes@ == old(cursor).bytes@,
        final(cursor).wf(),
        match vec_at(old(cursor).bytes@, old(cursor).offset as int, data_item(old(module)@)) {
            Ok((items, p)) => r is Ok && final(cursor).offset == p && final(module)@ == (ModuleView {
                data: old(module)@.data + items,
                ..old(module)@
            }),
            Err(e) => r == Err::<(), ParseError>(e),
        },
{
    let ghost s = cursor.bytes@;
    let count = cursor.read_u32()?;
    let ghost start = cursor.offset as int;
    let ghost mut acc: Seq<DataSegmentView> = Seq::empty();
    let mut items: Vec<DataSegment> = Vec::new();
    let mut i: u32 = 0;
    while i < count
        invariant
            cursor.wf(),
            cursor.bytes@ == s,
            old(cursor).bytes@ == s,
            i <= count,
            module@ == old(module)@,
            vec_at(s, old(cursor).offset as int, data_item(old(module)@)) == repeat(
                s,
                start,
                count as nat,
                data_item(old(module)@),
                Seq::empty(),
            ),
            repeat(s, start, count as nat, data_item(old(module)@), Seq::empty()) == repeat(
                s,
                cursor.offset as int,
                (count - i) as nat,
                data_item(old(module)@),
                acc,
            ),
            items@.map_values(data_view()) == acc,
        decreases count - i,
    {
        let x = read_data_segment(cursor, module)?;
        proof {
            lemma_map_values_push(items@, x, data_view());
            acc = acc.push((data_view())(x));
        }
        items.push(x);
        i = i + 1;
    }
    let ghost before = module.data@;
    let ghost parsed = items@;
    module.data.append(&mut items);
    proof {
        lemma_map_values_add(before, parsed, data_view());
    }
    Ok(())
}

/// Read standard section `section_id` (1 to 12) from its whole payload into `module`.
#[verifier::rlimit(40)]
fn parse_section(section_id: u8, payload: &[u8], module: &mut Module) -> (r: Result<(), ParseError>)
    requires
        1 <= section_id <= 12,
    ensures
        match section_at(section_id, payload@, old(module)@) {
            Ok((m2, q)) => if q != payload@.len() {
                r == Err::<(), ParseError>(ParseError::SectionLengthMismatch(section_id))
            } else {
                r is Ok && final(module)@ == m2
            },
            Err(e) => r == Err::<(), ParseError>(e),
        },
{
    reveal(section_at);
    let mut section = Cursor::new(payload);
    if section_id == 1 {
        parse_type_section(&mut section, module)?;
    } else if section_id == 2 {
        parse_import_section(&mut section, module)?;
    } else if section_id == 3 {
        parse_function_section(&mut section, module)?;
    } else if section_id == 4 {
        parse_table_section(&mut section, module)?;
    } else if section_id == 5 {
        parse_memory_section(&mut section, module)?;
    } else if section_id == 6 {
        parse_global_section(&mut section, module)?;
    } else if section_id == 7 {
        parse_export_section(&mut section, module)?;
    } else if section_id == 8 {
        parse_start_section(&mut section, module)?;
    } else if section_id == 9 {
        parse_element_section(&mut section, module)?;
    } else if section_id == 10 {
        parse_code_section(&mut section, module)?;
    } else if section_id == 11 {
        parse_data_section(&mut section, module)?;
    } else {
        module.data_count = Some(section.read_u32()?);
    }
    if !section.is_eof() {
        return Err(ParseError::SectionLengthMismatch(section_id));
    }
    Ok(())
}

/// Parse a WebAssembly binary module.
pub fn parse_module(bytes: &[u8]) -> (r: Result<Module, ParseError>)
    ensures
        match spec_parse_module(bytes@) {
            Ok(m) => r matches Ok(x) && x@ == m,
            Err(e) => r == Err::<Module, ParseError>(e),
        },
{
    let mut cursor = Cursor::new(bytes);
    let magic = cursor.read_array4()?;
    if !(magic[0] == 0x00 && magic[1] == 0x61 && magic[2] == 0x73 && magic[3] == 0x6d) {
        assert(magic@ != wasm_magic());
        assert(array4(magic@) == magic);
        return Err(ParseError::InvalidMagic(magic));
    }
    assert(magic@ =~= wasm_magic());
    let version = cursor.read_array4()?;
    if !(version[0] == 0x01 && version[1] == 0x00 && version[2] == 0x00 && version[3] == 0x00) {
        assert(version@ != wasm_version_1());
        assert(array4(version@) == version);
        return Err(ParseError::UnsupportedVersion(version));
    }
    assert(version@ =~= wasm_version_1());

    let mut module = Module::default();
    let mut last_standard: u8 = 0;
    let mut last_order: u8 = 0;
    let mut seen = [false; 13];
    assert(seen@ =~= Seq::new(13, |i: int| false));

    while !cursor.is_eof()
        invariant
            cursor.wf(),
            cursor.bytes@ == bytes@,
            seen@.len() == 13,
            spec_parse_module(bytes@) == sections_from(
                bytes@,
                cursor.offset as int,
                SectionState { module: module@, last_standard, last_order, seen: seen@ },
            ),
        decreases bytes@.len() - cursor.offset,
    {
        let ghost pos = cursor.offset as int;
        let section_id = cursor.read_u8()?;
        let section_len = cursor.read_u32()?;
        proof {
            lemma_u32_leb_from_ok(rest(bytes@, pos + 1), 0);
        }
        let payload = cursor.read_exact(section_len as usize)?;

        if section_id == 0 {
            let mut section = Cursor::new(payload);
            section.read_name()?;
            continue;
        }
        if section_id > 12 {
            return Err(ParseError::UnsupportedSection(section_id));
        }
        // DataCount (id 12) is ordered after Element and before Code/Data.
        let section_order = if section_id == 12 {
            10
        } else if section_id == 10 {
            11
        } else if section_id == 11 {
            12
        } else {
            section_id
        };
        if section_order < last_order {
            return Err(ParseError::SectionOutOfOrder { previous: last_standard, current: section_id });
        }
        if seen[section_id as usize] {
            return Err(ParseError::DuplicateSection(section_id));
        }
        seen[section_id as usize] = true;
        last_standard = section_id;
        last_order = section_order;

        parse_section(section_id, payload, &mut module)?;
    }

    if module.function_type_indices.len() != module.code.len() {
        return Err(
            ParseError::FunctionCodeLengthMismatch {
                functions: module.function_type_indices.len(),
                bodies: module.code.len(),
            },
        );
    }
    if let Some(declared) = module.data_count {
        if declared as usize != module.data.len() {
            return Err(ParseError::DataCountMismatch { declared, actual: module.data.len() });
        }
    }
    Ok(module)
}

} // verus!
