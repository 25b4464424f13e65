use vstd::prelude::*;
use crate::types::ValueType;

use vstd::string::StringExecFns;
use crate::text::{decimal_chars, render_decimal, hex2, render_hex2, bytes4_hex, render_bytes4_hex, value_type_name, render_value_type};

verus! {

/// Why a WebAssembly binary was rejected by the parser.
#[allow(inconsistent_fields)]
#[derive(Debug, Clone, PartialEq, Eq)]
pub enum ParseError {
    UnexpectedEof,
    InvalidMagic([u8; 4]),
    UnsupportedVersion([u8; 4]),
    InvalidLeb128,
    Leb128Overflow,
    UnsupportedSection(u8),
    SectionOutOfOrder { previous: u8, current: u8 },
    DuplicateSection(u8),
    SectionLengthMismatch(u8),
    InvalidFunctionType(u8),
    UnsupportedValueType(u8),
    InvalidUtf8,
    InvalidImportKind(u8),
    InvalidExportKind(u8),
    InvalidLimitsFlags(u8),
    InvalidReferenceType(u8),
    InvalidMutability(u8),
    InvalidElementKind(u8),
    UnsupportedElementSegmentMode(u32),
    UnsupportedDataSegmentMode(u32),
    InvalidConstExprOpcode(u8),
    ConstExprMissingEnd,
    ConstExprTypeMismatch { expected: ValueType, actual: ValueType },
    FunctionBodyMissingEnd,
    FunctionCodeLengthMismatch { functions: usize, bodies: usize },
    DataCountMismatch { declared: u32, actual: usize },
    TrailingBytes,
}

impl ParseError {
    /// The message that describes the error.
    pub open spec fn spec_describe(self) -> Seq<char> {
        match self {
            ParseError::UnexpectedEof => "unexpected end of input"@,
            ParseError::InvalidMagic(got) => "invalid WebAssembly magic: "@ + bytes4_hex(got),
            ParseError::UnsupportedVersion(got) => "unsupported WebAssembly version: "@
                + bytes4_hex(got),
            ParseError::InvalidLeb128 => "invalid LEB128 encoding"@,
            ParseError::Leb128Overflow => "LEB128 value exceeds 32 bits"@,
            ParseError::UnsupportedSection(id) => "unsupported section id "@
                + decimal_chars(id as nat),
            ParseError::SectionOutOfOrder { previous, current } => "section "@
                + decimal_chars(current as nat)
                + " appears after section "@
                + decimal_chars(previous as nat),
            ParseError::DuplicateSection(id) => "duplicate section id "@ + decimal_chars(id as nat),
            ParseError::SectionLengthMismatch(id) => "section "@
                + decimal_chars(id as nat)
                + " did not consume its declared payload"@,
            ParseError::InvalidFunctionType(tag) => "invalid function type tag 0x"@ + hex2(tag),
            ParseError::UnsupportedValueType(tag) => "unsupported value type 0x"@ + hex2(tag),
            ParseError::InvalidUtf8 => "name is not valid UTF-8"@,
            ParseError::InvalidImportKind(kind) => "invalid import kind "@
                + decimal_chars(kind as nat),
            ParseError::InvalidExportKind(kind) => "invalid export kind "@
                + decimal_chars(kind as nat),
            ParseError::InvalidLimitsFlags(flags) => "invalid limits flags 0x"@ + hex2(flags),
            ParseError::InvalidReferenceType(tag) => "unsupported table reference type 0x"@
                + hex2(tag),
            ParseError::InvalidMutability(value) => "invalid global mutability byte "@
                + decimal_chars(value as nat),
            ParseError::InvalidElementKind(kind) => "invalid legacy element kind byte 0x"@
                + hex2(kind),
            ParseError::UnsupportedElementSegmentMode(mode) => "unsupported element segment mode "@
                + decimal_chars(mode as nat),
            ParseError::UnsupportedDataSegmentMode(mode) => "unsupported data segment mode "@
                + decimal_chars(mode as nat),
            ParseError::InvalidConstExprOpcode(opcode) => "unsupported constant-expression opcode 0x"@
                + hex2(opcode),
            ParseError::ConstExprMissingEnd => "constant expression is missing end opcode"@,
            ParseError::ConstExprTypeMismatch { expected, actual } => "constant expression has type "@
                + value_type_name(actual)
                + ", expected "@
                + value_type_name(expected),
            ParseError::FunctionBodyMissingEnd => "function body is missing final end opcode"@,
            ParseError::FunctionCodeLengthMismatch { functions, bodies } => "function section declares "@
                + decimal_chars(functions as nat)
                + " defined functions but code section contains "@
                + decimal_chars(bodies as nat)
                + " bodies"@,
            ParseError::DataCountMismatch { declared, actual } => "data-count section declares "@
                + decimal_chars(declared as nat)
                + " segments but data section contains "@
                + decimal_chars(actual as nat),
            ParseError::TrailingBytes => "trailing bytes after parsed value"@,
        }
    }

    /// The message that describes the error.
    pub fn describe(&self) -> (s: String)
        ensures
            s@ == self.spec_describe(),
    {
        match self {
            ParseError::UnexpectedEof => String::from_str("unexpected end of input"),
            ParseError::InvalidMagic(got) => {
                let mut s = String::from_str("invalid WebAssembly magic: ");
                s.append(render_bytes4_hex(*got).as_str());
                s
            },
            ParseError::UnsupportedVersion(got) => {
                let mut s = String::from_str("unsupported WebAssembly version: ");
                s.append(render_bytes4_hex(*got).as_str());
                s
            },
            ParseError::InvalidLeb128 => String::from_str("invalid LEB128 encoding"),
            ParseError::Leb128Overflow => String::from_str("LEB128 value exceeds 32 bits"),
            ParseError::UnsupportedSection(id) => {
                let mut s = String::from_str("unsupported section id ");
                s.append(render_decimal(*id as u64).as_str());
                s
            },
            ParseError::SectionOutOfOrder { previous, current } => {
                let mut s = String::from_str("section ");
                s.append(render_decimal(*current as u64).as_str());
                s.append(" appears after section ");
                s.append(render_decimal(*previous as u64).as_str());
                s
            },
            ParseError::DuplicateSection(id) => {
                let mut s = String::from_str("duplicate section id ");
                s.append(render_decimal(*id as u64).as_str());
                s
            },
            ParseError::SectionLengthMismatch(id) => {
                let mut s = String::from_str("section ");
                s.append(render_decimal(*id as u64).as_str());
                s.append(" did not consume its declared payload");
                s
            },
            ParseError::InvalidFunctionType(tag) => {
                let mut s = String::from_str("invalid function type tag 0x");
                s.append(render_hex2(*tag).as_str());
                s
            },
            ParseError::UnsupportedValueType(tag) => {
                let mut s = String::from_str("unsupported value type 0x");
                s.append(render_hex2(*tag).as_str());
                s
            },
            ParseError::InvalidUtf8 => String::from_str("name is not valid UTF-8"),
            ParseError::InvalidImportKind(kind) => {
                let mut s = String::from_str("invalid import kind ");
                s.append(render_decimal(*kind as u64).as_str());
                s
            },
            ParseError::InvalidExportKind(kind) => {
                let mut s = String::from_str("invalid export kind ");
                s.append(render_decimal(*kind as u64).as_str());
                s
            },
            ParseError::InvalidLimitsFlags(flags) => {
                let mut s = String::from_str("invalid limits flags 0x");
                s.append(render_hex2(*flags).as_str());
                s
            },
            ParseError::InvalidReferenceType(tag) => {
                let mut s = String::from_str("unsupported table reference type 0x");
                s.append(render_hex2(*tag).as_str());
                s
            },
            ParseError::InvalidMutability(value) => {
                let mut s = String::from_str("invalid global mutability byte ");
                s.append(render_decimal(*value as u64).as_str());
                s
            },
            ParseError::InvalidElementKind(kind) => {
                let mut s = String::from_str("invalid legacy element kind byte 0x");
                s.append(render_hex2(*kind).as_str());
                s
            },
            ParseError::UnsupportedElementSegmentMode(mode) => {
                let mut s = String::from_str("unsupported element segment mode ");
                s.append(render_decimal(*mode as u64).as_str());
                s
            },
            ParseError::UnsupportedDataSegmentMode(mode) => {
                let mut s = String::from_str("unsupported data segment mode ");
                s.append(render_decimal(*mode as u64).as_str());
                s
            },
            ParseError::InvalidConstExprOpcode(opcode) => {
                let mut s = String::from_str("unsupported constant-expression opcode 0x");
                s.append(render_hex2(*opcode).as_str());
                s
            },
            ParseError::ConstExprMissingEnd => String::from_str("constant expression is missing end opcode"),
            ParseError::ConstExprTypeMismatch { expected, actual } => {
                let mut s = String::from_str("constant expression has type ");
                s.append(render_value_type(*actual).as_str());
                s.append(", expected ");
                s.append(render_value_type(*expected).as_str());
                s
            },
            ParseError::FunctionBodyMissingEnd => String::from_str("function body is missing final end opcode"),
            ParseError::FunctionCodeLengthMismatch { functions, bodies } => {
                let mut s = String::from_str("function section declares ");
                s.append(render_decimal(*functions as u64).as_str());
                s.append(" defined functions but code section contains ");
                s.append(render_decimal(*bodies as u64).as_str());
                s.append(" bodies");
                s
            },
            ParseError::DataCountMismatch { declared, actual } => {
                let mut s = String::from_str("data-count section declares ");
                s.append(render_decimal(*declared as u64).as_str());
                s.append(" segments but data section contains ");
                s.append(render_decimal(*actual as u64).as_str());
                s
            },
            ParseError::TrailingBytes => String::from_str("trailing bytes after parsed value"),
        }
    }
}

} // verus!
