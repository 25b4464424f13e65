//! The errors that a host callback and the interpreter report.
use vstd::prelude::*;
use crate::error::ParseError;
use crate::types::{ImportKind, ValueType};

use vstd::string::StringExecFns;
use crate::text::{decimal_chars, render_decimal, hex2, render_hex2, debug_quoted, quote, value_type_name, render_value_type, optional_count, render_optional_count, bool_text, render_bool, import_kind_name, render_import_kind};

verus! {

/// What a host callback, or the host view of linear memory, reports.
#[derive(Debug, Clone, PartialEq, Eq)]
pub enum HostError {
    CapabilityDenied(&'static str),
    MemoryUnavailable,
    MemoryOutOfBounds { address: u64, width: usize },
    Message(String),
}

impl HostError {
    /// A free-form failure carrying `message`.
    pub fn message(message: String) -> (e: HostError)
        ensures
            e == HostError::Message(message),
    {
        HostError::Message(message)
    }
}

/// Every way in which instantiation or execution can fail.
#[allow(inconsistent_fields)]
#[derive(Debug, Clone, PartialEq, Eq)]
pub enum RuntimeError {
    Decode(ParseError),
    ExportNotFound(String),
    ExportNotFunction(String),
    FunctionOutOfBounds(u32),
    UnsupportedType(ValueType),
    WrongArgumentCount { expected: usize, actual: usize },
    LocalOutOfBounds(u32),
    StackUnderflow,
    ValueTypeMismatch { expected: ValueType, actual: ValueType },
    UnsupportedOpcode(u8),
    IntegerDivisionByZero,
    IntegerOverflow,
    InvalidConversionToInteger,
    UnsupportedPrefixedOpcode { prefix: u8, subopcode: u32 },
    UnsupportedBlockType(u8),
    BlockTypeIndexOutOfBounds(u32),
    UnsupportedBlockResultArity { type_index: u32, results: usize },
    BranchDepthOutOfBounds(u32),
    ControlStackMismatch { expected: usize, actual: usize },
    ControlInvariant(&'static str),
    ResultArityMismatch { expected: usize, actual: usize },
    MultiValueResultRequiresValuesApi { results: usize },
    MemoryUnavailable,
    MemoryIndexOutOfBounds(u32),
    MemoryOutOfBounds { address: u64, width: usize },
    MemoryAllocationFailed { pages: u32 },
    MemoryLimitExceeded { minimum: u32, limit: u32 },
    DataSegmentOutOfBounds { segment: usize, offset: u64, length: usize },
    TableAllocationFailed { elements: u32 },
    ElementSegmentOutOfBounds { segment: usize, offset: u64, length: usize },
    ElementSegmentSourceOutOfBounds { segment: u32, offset: u32, length: u32 },
    DataSegmentSourceOutOfBounds { segment: u32, offset: u32, length: u32 },
    GlobalOutOfBounds(u32),
    ImmutableGlobalSet(u32),
    TableIndexOutOfBounds(u32),
    TableElementOutOfBounds(u32),
    UninitializedTableElement(u32),
    IndirectCallTypeMismatch { expected_type: u32, function_index: u32 },
    UnresolvedImport { module: String, name: String },
    UnresolvedGlobalImport { module: String, name: String },
    UnresolvedTableImport { module: String, name: String },
    UnresolvedMemoryImport { module: String, name: String },
    HostMemoryLimitsMismatch {
        module: String,
        name: String,
        expected_minimum: u32,
        expected_maximum: Option<u32>,
        actual_minimum: u32,
        actual_maximum: Option<u32>,
    },
    HostMemoryRuntimeLimitMismatch {
        module: String,
        name: String,
        memory_limit: u32,
        runtime_limit: u32,
    },
    HostTableLimitsMismatch {
        module: String,
        name: String,
        expected_minimum: u32,
        expected_maximum: Option<u32>,
        actual_minimum: u32,
        actual_maximum: Option<u32>,
    },
    HostTableAlreadyBound { module: String, name: String },
    ForeignTableFunctionReference { element_index: u32 },
    HostGlobalTypeMismatch { module: String, name: String, expected: ValueType, actual: ValueType },
    HostGlobalMutabilityMismatch { module: String, name: String, expected: bool, actual: bool },
    UnsupportedObjectImport { module: String, name: String, kind: ImportKind },
    HostSignatureMismatch { module: String, name: String },
    HostCallFailed { module: String, name: String, error: HostError },
    HostResultArityMismatch { module: String, name: String, expected: usize, actual: usize },
    HostResultTypeMismatch { module: String, name: String, expected: ValueType, actual: ValueType },
    FuelExhausted,
    HostCallLimitExceeded { limit: u64 },
    CallDepthExceeded { limit: usize },
}

impl From<ParseError> for RuntimeError {
    /// An instruction immediate that failed to decode.
    fn from(value: ParseError) -> (e: RuntimeError) {
        RuntimeError::Decode(value)
    }
}

impl vstd::std_specs::convert::FromSpecImpl<ParseError> for RuntimeError {
    open spec fn obeys_from_spec() -> bool {
        true
    }

    open spec fn from_spec(v: ParseError) -> RuntimeError {
        RuntimeError::Decode(v)
    }
}

impl HostError {
    /// The message that describes the error.
    pub open spec fn spec_describe(self) -> Seq<char> {
        match self {
            HostError::CapabilityDenied(capability) => "host capability "@
                + capability@
                + " was not granted"@,
            HostError::MemoryUnavailable => "module has no linear memory"@,
            HostError::MemoryOutOfBounds { address, width } => "host memory access at byte "@
                + decimal_chars(address as nat)
                + " with width "@
                + decimal_chars(width as nat)
                + " is out of bounds"@,
            HostError::Message(message) => message@,
        }
    }

    /// The message that describes the error.
    pub fn describe(&self) -> (s: String)
        ensures
            s@ == self.spec_describe(),
    {
        match self {
            HostError::CapabilityDenied(capability) => {
                let mut s = String::from_str("host capability ");
                s.append(*capability);
                s.append(" was not granted");
                s
            },
            HostError::MemoryUnavailable => String::from_str("module has no linear memory"),
            HostError::MemoryOutOfBounds { address, width } => {
                let mut s = String::from_str("host memory access at byte ");
                s.append(render_decimal(*address as u64).as_str());
                s.append(" with width ");
                s.append(render_decimal(*width as u64).as_str());
                s.append(" is out of bounds");
                s
            },
            HostError::Message(message) => String::from_str(message.as_str()),
        }
    }
}

impl RuntimeError {
    /// The message that describes the error.
    pub open spec fn spec_describe(self) -> Seq<char> {
        match self {
            RuntimeError::Decode(error) => "instruction decode failed: "@ + error.spec_describe(),
            RuntimeError::ExportNotFound(name) => "export "@ + debug_quoted(name@) + " not found"@,
            RuntimeError::ExportNotFunction(name) => "export "@
                + debug_quoted(name@)
                + " is not a function"@,
            RuntimeError::FunctionOutOfBounds(index) => "function index "@
                + decimal_chars(index as nat)
                + " is out of bounds"@,
            RuntimeError::UnsupportedType(ty) => "runtime does not yet execute type "@
                + value_type_name(ty),
            RuntimeError::WrongArgumentCount { expected, actual } => "expected "@
                + decimal_chars(expected as nat)
                + " arguments, got "@
                + decimal_chars(actual as nat),
            RuntimeError::LocalOutOfBounds(index) => "local index "@
                + decimal_chars(index as nat)
                + " is out of bounds"@,
            RuntimeError::StackUnderflow => "operand stack underflow"@,
            RuntimeError::ValueTypeMismatch { expected, actual } => "runtime expected "@
                + value_type_name(expected)
                + ", got "@
                + value_type_name(actual),
            RuntimeError::UnsupportedOpcode(opcode) => "unsupported opcode 0x"@ + hex2(opcode),
            RuntimeError::IntegerDivisionByZero => "integer division by zero"@,
            RuntimeError::IntegerOverflow => "integer overflow"@,
            RuntimeError::InvalidConversionToInteger => "invalid conversion to integer"@,
            RuntimeError::UnsupportedPrefixedOpcode { prefix, subopcode } => "unsupported prefixed opcode 0x"@
                + hex2(prefix)
                + ":"@
                + decimal_chars(subopcode as nat),
            RuntimeError::UnsupportedBlockType(block_type) => "unsupported block type 0x"@
                + hex2(block_type),
            RuntimeError::BlockTypeIndexOutOfBounds(type_index) => "block signature refers to missing type "@
                + decimal_chars(type_index as nat),
            RuntimeError::UnsupportedBlockResultArity { type_index, results } => "block signature type "@
                + decimal_chars(type_index as nat)
                + " has "@
                + decimal_chars(results as nat)
                + " results; at most one is supported"@,
            RuntimeError::BranchDepthOutOfBounds(depth) => "branch label depth "@
                + decimal_chars(depth as nat)
                + " is out of bounds"@,
            RuntimeError::ControlStackMismatch { expected, actual } => "control frame expects stack height "@
                + decimal_chars(expected as nat)
                + ", got "@
                + decimal_chars(actual as nat),
            RuntimeError::ControlInvariant(message) => "validated control invariant failed: "@
                + message@,
            RuntimeError::ResultArityMismatch { expected, actual } => "expected "@
                + decimal_chars(expected as nat)
                + " result values, stack contains "@
                + decimal_chars(actual as nat),
            RuntimeError::MultiValueResultRequiresValuesApi { results } => "export returns "@
                + decimal_chars(results as nat)
                + " values; use invoke_export_values for multi-value results"@,
            RuntimeError::MemoryUnavailable => "module has no linear memory"@,
            RuntimeError::MemoryIndexOutOfBounds(index) => "memory index "@
                + decimal_chars(index as nat)
                + " is out of bounds"@,
            RuntimeError::MemoryOutOfBounds { address, width } => "linear-memory access at byte "@
                + decimal_chars(address as nat)
                + " with width "@
                + decimal_chars(width as nat)
                + " is out of bounds"@,
            RuntimeError::MemoryAllocationFailed { pages } => "failed to allocate linear memory with "@
                + decimal_chars(pages as nat)
                + " pages"@,
            RuntimeError::MemoryLimitExceeded { minimum, limit } => "module requires "@
                + decimal_chars(minimum as nat)
                + " initial memory pages but runtime limit is "@
                + decimal_chars(limit as nat),
            RuntimeError::DataSegmentOutOfBounds { segment, offset, length } => "data segment "@
                + decimal_chars(segment as nat)
                + " at byte "@
                + decimal_chars(offset as nat)
                + " with length "@
                + decimal_chars(length as nat)
                + " does not fit initial memory"@,
            RuntimeError::TableAllocationFailed { elements } => "failed to allocate table with "@
                + decimal_chars(elements as nat)
                + " elements"@,
            RuntimeError::ElementSegmentOutOfBounds { segment, offset, length } => "element segment "@
                + decimal_chars(segment as nat)
                + " at table offset "@
                + decimal_chars(offset as nat)
                + " with length "@
                + decimal_chars(length as nat)
                + " does not fit initial table"@,
            RuntimeError::ElementSegmentSourceOutOfBounds { segment, offset, length } => "element segment "@
                + decimal_chars(segment as nat)
                + " has no "@
                + decimal_chars(length as nat)
                + " elements at offset "@
                + decimal_chars(offset as nat),
            RuntimeError::DataSegmentSourceOutOfBounds { segment, offset, length } => "data segment "@
                + decimal_chars(segment as nat)
                + " has no "@
                + decimal_chars(length as nat)
                + " bytes at offset "@
                + decimal_chars(offset as nat),
            RuntimeError::GlobalOutOfBounds(index) => "global index "@
                + decimal_chars(index as nat)
                + " is out of bounds"@,
            RuntimeError::ImmutableGlobalSet(index) => "global index "@
                + decimal_chars(index as nat)
                + " is immutable"@,
            RuntimeError::TableIndexOutOfBounds(index) => "table index "@
                + decimal_chars(index as nat)
                + " is out of bounds"@,
            RuntimeError::TableElementOutOfBounds(index) => "table element index "@
                + decimal_chars(index as nat)
                + " is out of bounds"@,
            RuntimeError::UninitializedTableElement(index) => "table element index "@
                + decimal_chars(index as nat)
                + " is uninitialized"@,
            RuntimeError::IndirectCallTypeMismatch { expected_type, function_index } => "call_indirect expected type "@
                + decimal_chars(expected_type as nat)
                + ", but table function "@
                + decimal_chars(function_index as nat)
                + " has a different type"@,
            RuntimeError::UnresolvedImport { module, name } => "unresolved host function import "@
                + module@
                + "."@
                + name@,
            RuntimeError::UnresolvedGlobalImport { module, name } => "unresolved host immutable global import "@
                + module@
                + "."@
                + name@,
            RuntimeError::UnresolvedTableImport { module, name } => "unresolved host table import "@
                + module@
                + "."@
                + name@,
            RuntimeError::UnresolvedMemoryImport { module, name } => "unresolved host memory import "@
                + module@
                + "."@
                + name@,
            RuntimeError::HostMemoryLimitsMismatch { module, name, expected_minimum, expected_maximum, actual_minimum, actual_maximum } => "host memory "@
                + module@
                + "."@
                + name@
                + " has limits min="@
                + decimal_chars(actual_minimum as nat)
                + " max="@
                + optional_count(actual_maximum)
                + ", which do not satisfy imported min="@
                + decimal_chars(expected_minimum as nat)
                + " max="@
                + optional_count(expected_maximum),
            RuntimeError::HostMemoryRuntimeLimitMismatch { module, name, memory_limit, runtime_limit } => "host memory "@
                + module@
                + "."@
                + name@
                + " can reach "@
                + decimal_chars(memory_limit as nat)
                + " pages, exceeding runtime limit "@
                + decimal_chars(runtime_limit as nat),
            RuntimeError::HostTableLimitsMismatch { module, name, expected_minimum, expected_maximum, actual_minimum, actual_maximum } => "host table "@
                + module@
                + "."@
                + name@
                + " has limits min="@
                + decimal_chars(actual_minimum as nat)
                + " max="@
                + optional_count(actual_maximum)
                + ", which do not satisfy imported min="@
                + decimal_chars(expected_minimum as nat)
                + " max="@
                + optional_count(expected_maximum),
            RuntimeError::HostTableAlreadyBound { module, name } => "host table "@
                + module@
                + "."@
                + name@
                + " is already bound to another live runtime instance"@,
            RuntimeError::ForeignTableFunctionReference { element_index } => "table element "@
                + decimal_chars(element_index as nat)
                + " refers to a function owned by another runtime instance"@,
            RuntimeError::HostGlobalTypeMismatch { module, name, expected, actual } => "registered host global "@
                + module@
                + "."@
                + name@
                + " has type "@
                + value_type_name(actual)
                + ", expected "@
                + value_type_name(expected),
            RuntimeError::HostGlobalMutabilityMismatch { module, name, expected, actual } => "registered host global "@
                + module@
                + "."@
                + name@
                + " has mutable="@
                + bool_text(actual)
                + ", expected mutable="@
                + bool_text(expected),
            RuntimeError::UnsupportedObjectImport { module, name, kind } => "import "@
                + module@
                + "."@
                + name@
                + " has unsupported runtime object kind "@
                + import_kind_name(kind)
                + "; shared object imports are not instantiated yet"@,
            RuntimeError::HostSignatureMismatch { module, name } => "registered host function "@
                + module@
                + "."@
                + name@
                + " does not match the module import signature"@,
            RuntimeError::HostCallFailed { module, name, error } => "host function "@
                + module@
                + "."@
                + name@
                + " failed: "@
                + error.spec_describe(),
            RuntimeError::HostResultArityMismatch { module, name, expected, actual } => "host function "@
                + module@
                + "."@
                + name@
                + " returned "@
                + decimal_chars(actual as nat)
                + " values, expected "@
                + decimal_chars(expected as nat),
            RuntimeError::HostResultTypeMismatch { module, name, expected, actual } => "host function "@
                + module@
                + "."@
                + name@
                + " returned "@
                + value_type_name(actual)
                + ", expected "@
                + value_type_name(expected),
            RuntimeError::FuelExhausted => "execution fuel exhausted"@,
            RuntimeError::HostCallLimitExceeded { limit } => "host call limit of "@
                + decimal_chars(limit as nat)
                + " was exceeded"@,
            RuntimeError::CallDepthExceeded { limit } => "maximum call depth of "@
                + decimal_chars(limit as nat)
                + " was exceeded"@,
        }
    }

    /// The message that describes the error.
    pub fn describe(&self) -> (s: String)
        ensures
            s@ == self.spec_describe(),
    {
        match self {
            RuntimeError::Decode(error) => {
                let mut s = String::from_str("instruction decode failed: ");
                s.append(error.describe().as_str());
                s
            },
            RuntimeError::ExportNotFound(name) => {
                let mut s = String::from_str("export ");
                s.append(quote(name.as_str()).as_str());
                s.append(" not found");
                s
            },
            RuntimeError::ExportNotFunction(name) => {
                let mut s = String::from_str("export ");
                s.append(quote(name.as_str()).as_str());
                s.append(" is not a function");
                s
            },
            RuntimeError::FunctionOutOfBounds(index) => {
                let mut s = String::from_str("function index ");
                s.append(render_decimal(*index as u64).as_str());
                s.append(" is out of bounds");
                s
            },
            RuntimeError::UnsupportedType(ty) => {
                let mut s = String::from_str("runtime does not yet execute type ");
                s.append(render_value_type(*ty).as_str());
                s
            },
            RuntimeError::WrongArgumentCount { expected, actual } => {
                let mut s = String::from_str("expected ");
                s.append(render_decimal(*expected as u64).as_str());
                s.append(" arguments, got ");
                s.append(render_decimal(*actual as u64).as_str());
                s
            },
            RuntimeError::LocalOutOfBounds(index) => {
                let mut s = String::from_str("local index ");
                s.append(render_decimal(*index as u64).as_str());
                s.append(" is out of bounds");
                s
            },
            RuntimeError::StackUnderflow => String::from_str("operand stack underflow"),
            RuntimeError::ValueTypeMismatch { expected, actual } => {
                let mut s = String::from_str("runtime expected ");
                s.append(render_value_type(*expected).as_str());
                s.append(", got ");
                s.append(render_value_type(*actual).as_str());
                s
            },
            RuntimeError::UnsupportedOpcode(opcode) => {
                let mut s = String::from_str("unsupported opcode 0x");
                s.append(render_hex2(*opcode).as_str());
                s
            },
            RuntimeError::IntegerDivisionByZero => String::from_str("integer division by zero"),
            RuntimeError::IntegerOverflow => String::from_str("integer overflow"),
            RuntimeError::InvalidConversionToInteger => String::from_str("invalid conversion to integer"),
            RuntimeError::UnsupportedPrefixedOpcode { prefix, subopcode } => {
                let mut s = String::from_str("unsupported prefixed opcode 0x");
                s.append(render_hex2(*prefix).as_str());
                s.append(":");
                s.append(render_decimal(*subopcode as u64).as_str());
                s
            },
            RuntimeError::UnsupportedBlockType(block_type) => {
                let mut s = String::from_str("unsupported block type 0x");
                s.append(render_hex2(*block_type).as_str());
                s
            },
            RuntimeError::BlockTypeIndexOutOfBounds(type_index) => {
                let mut s = String::from_str("block signature refers to missing type ");
                s.append(render_decimal(*type_index as u64).as_str());
                s
            },
            RuntimeError::UnsupportedBlockResultArity { type_index, results } => {
                let mut s = String::from_str("block signature type ");
                s.append(render_decimal(*type_index as u64).as_str());
                s.append(" has ");
                s.append(render_decimal(*results as u64).as_str());
                s.append(" results; at most one is supported");
                s
            },
            RuntimeError::BranchDepthOutOfBounds(depth) => {
                let mut s = String::from_str("branch label depth ");
                s.append(render_decimal(*depth as u64).as_str());
                s.append(" is out of bounds");
                s
            },
            RuntimeError::ControlStackMismatch { expected, actual } => {
                let mut s = String::from_str("control frame expects stack height ");
                s.append(render_decimal(*expected as u64).as_str());
                s.append(", got ");
                s.append(render_decimal(*actual as u64).as_str());
                s
            },
            RuntimeError::ControlInvariant(message) => {
                let mut s = String::from_str("validated control invariant failed: ");
                s.append(*message);
                s
            },
            RuntimeError::ResultArityMismatch { expected, actual } => {
                let mut s = String::from_str("expected ");
                s.append(render_decimal(*expected as u64).as_str());
                s.append(" result values, stack contains ");
                s.append(render_decimal(*actual as u64).as_str());
                s
            },
            RuntimeError::MultiValueResultRequiresValuesApi { results } => {
                let mut s = String::from_str("export returns ");
                s.append(render_decimal(*results as u64).as_str());
                s.append(" values; use invoke_export_values for multi-value results");
                s
            },
            RuntimeError::MemoryUnavailable => String::from_str("module has no linear memory"),
            RuntimeError::MemoryIndexOutOfBounds(index) => {
                let mut s = String::from_str("memory index ");
                s.append(render_decimal(*index as u64).as_str());
                s.append(" is out of bounds");
                s
            },
            RuntimeError::MemoryOutOfBounds { address, width } => {
                let mut s = String::from_str("linear-memory access at byte ");
                s.append(render_decimal(*address as u64).as_str());
                s.append(" with width ");
                s.append(render_decimal(*width as u64).as_str());
                s.append(" is out of bounds");
                s
            },
            RuntimeError::MemoryAllocationFailed { pages } => {
                let mut s = String::from_str("failed to allocate linear memory with ");
                s.append(render_decimal(*pages as u64).as_str());
                s.append(" pages");
                s
            },
            RuntimeError::MemoryLimitExceeded { minimum, limit } => {
                let mut s = String::from_str("module requires ");
                s.append(render_decimal(*minimum as u64).as_str());
                s.append(" initial memory pages but runtime limit is ");
                s.append(render_decimal(*limit as u64).as_str());
                s
            },
            RuntimeError::DataSegmentOutOfBounds { segment, offset, length } => {
                let mut s = String::from_str("data segment ");
                s.append(render_decimal(*segment as u64).as_str());
                s.append(" at byte ");
                s.append(render_decimal(*offset as u64).as_str());
                s.append(" with length ");
                s.append(render_decimal(*length as u64).as_str());
                s.append(" does not fit initial memory");
                s
            },
            RuntimeError::TableAllocationFailed { elements } => {
                let mut s = String::from_str("failed to allocate table with ");
                s.append(render_decimal(*elements as u64).as_str());
                s.append(" elements");
                s
            },
            RuntimeError::ElementSegmentOutOfBounds { segment, offset, length } => {
                let mut s = String::from_str("element segment ");
                s.append(render_decimal(*segment as u64).as_str());
                s.append(" at table offset ");
                s.append(render_decimal(*offset as u64).as_str());
                s.append(" with length ");
                s.append(render_decimal(*length as u64).as_str());
                s.append(" does not fit initial table");
                s
            },
            RuntimeError::ElementSegmentSourceOutOfBounds { segment, offset, length } => {
                let mut s = String::from_str("element segment ");
                s.append(render_decimal(*segment as u64).as_str());
                s.append(" has no ");
                s.append(render_decimal(*length as u64).as_str());
                s.append(" elements at offset ");
                s.append(render_decimal(*offset as u64).as_str());
                s
            },
            RuntimeError::DataSegmentSourceOutOfBounds { segment, offset, length } => {
                let mut s = String::from_str("data segment ");
                s.append(render_decimal(*segment as u64).as_str());
                s.append(" has no ");
                s.append(render_decimal(*length as u64).as_str());
                s.append(" bytes at offset ");
                s.append(render_decimal(*offset as u64).as_str());
                s
            },
            RuntimeError::GlobalOutOfBounds(index) => {
                let mut s = String::from_str("global index ");
                s.append(render_decimal(*index as u64).as_str());
                s.append(" is out of bounds");
                s
            },
            RuntimeError::ImmutableGlobalSet(index) => {
                let mut s = String::from_str("global index ");
                s.append(render_decimal(*index as u64).as_str());
                s.append(" is immutable");
                s
            },
            RuntimeError::TableIndexOutOfBounds(index) => {
                let mut s = String::from_str("table index ");
                s.append(render_decimal(*index as u64).as_str());
                s.append(" is out of bounds");
                s
            },
            RuntimeError::TableElementOutOfBounds(index) => {
                let mut s = String::from_str("table element index ");
                s.append(render_decimal(*index as u64).as_str());
                s.append(" is out of bounds");
                s
            },
            RuntimeError::UninitializedTableElement(index) => {
                let mut s = String::from_str("table element index ");
                s.append(render_decimal(*index as u64).as_str());
                s.append(" is uninitialized");
                s
            },
            RuntimeError::IndirectCallTypeMismatch { expected_type, function_index } => {
                let mut s = String::from_str("call_indirect expected type ");
                s.append(render_decimal(*expected_type as u64).as_str());
                s.append(", but table function ");
                s.append(render_decimal(*function_index as u64).as_str());
                s.append(" has a different type");
                s
            },
            RuntimeError::UnresolvedImport { module, name } => {
                let mut s = String::from_str("unresolved host function import ");
                s.append(module.as_str());
                s.append(".");
                s.append(name.as_str());
                s
            },
            RuntimeError::UnresolvedGlobalImport { module, name } => {
                let mut s = String::from_str("unresolved host immutable global import ");
                s.append(module.as_str());
                s.append(".");
                s.append(name.as_str());
                s
            },
            RuntimeError::UnresolvedTableImport { module, name } => {
                let mut s = String::from_str("unresolved host table import ");
                s.append(module.as_str());
                s.append(".");
                s.append(name.as_str());
                s
            },
            RuntimeError::UnresolvedMemoryImport { module, name } => {
                let mut s = String::from_str("unresolved host memory import ");
                s.append(module.as_str());
                s.append(".");
                s.append(name.as_str());
                s
            },
            RuntimeError::HostMemoryLimitsMismatch { module, name, expected_minimum, expected_maximum, actual_minimum, actual_maximum } => {
                let mut s = String::from_str("host memory ");
                s.append(module.as_str());
                s.append(".");
                s.append(name.as_str());
                s.append(" has limits min=");
                s.append(render_decimal(*actual_minimum as u64).as_str());
                s.append(" max=");
                s.append(render_optional_count(*actual_maximum).as_str());
                s.append(", which do not satisfy imported min=");
                s.append(render_decimal(*expected_minimum as u64).as_str());
                s.append(" max=");
                s.append(render_optional_count(*expected_maximum).as_str());
                s
            },
            RuntimeError::HostMemoryRuntimeLimitMismatch { module, name, memory_limit, runtime_limit } => {
                let mut s = String::from_str("host memory ");
                s.append(module.as_str());
                s.append(".");
                s.append(name.as_str());
                s.append(" can reach ");
                s.append(render_decimal(*memory_limit as u64).as_str());
                s.append(" pages, exceeding runtime limit ");
                s.append(render_decimal(*runtime_limit as u64).as_str());
                s
            },
            RuntimeError::HostTableLimitsMismatch { module, name, expected_minimum, expected_maximum, actual_minimum, actual_maximum } => {
                let mut s = String::from_str("host table ");
                s.append(module.as_str());
                s.append(".");
                s.append(name.as_str());
                s.append(" has limits min=");
                s.append(render_decimal(*actual_minimum as u64).as_str());
                s.append(" max=");
                s.append(render_optional_count(*actual_maximum).as_str());
                s.append(", which do not satisfy imported min=");
                s.append(render_decimal(*expected_minimum as u64).as_str());
                s.append(" max=");
                s.append(render_optional_count(*expected_maximum).as_str());
                s
            },
            RuntimeError::HostTableAlreadyBound { module, name } => {
                let mut s = String::from_str("host table ");
                s.append(module.as_str());
                s.append(".");
                s.append(name.as_str());
                s.append(" is already bound to another live runtime instance");
                s
            },
            RuntimeError::ForeignTableFunctionReference { element_index } => {
                let mut s = String::from_str("table element ");
                s.append(render_decimal(*element_index as u64).as_str());
                s.append(" refers to a function owned by another runtime instance");
                s
            },
            RuntimeError::HostGlobalTypeMismatch { module, name, expected, actual } => {
                let mut s = String::from_str("registered host global ");
                s.append(module.as_str());
                s.append(".");
                s.append(name.as_str());
                s.append(" has type ");
                s.append(render_value_type(*actual).as_str());
                s.append(", expected ");
                s.append(render_value_type(*expected).as_str());
                s
            },
            RuntimeError::HostGlobalMutabilityMismatch { module, name, expected, actual } => {
                let mut s = String::from_str("registered host global ");
                s.append(module.as_str());
                s.append(".");
                s.append(name.as_str());
                s.append(" has mutable=");
                s.append(render_bool(*actual).as_str());
                s.append(", expected mutable=");
                s.append(render_bool(*expected).as_str());
                s
            },
            RuntimeError::UnsupportedObjectImport { module, name, kind } => {
                let mut s = String::from_str("import ");
                s.append(module.as_str());
                s.append(".");
                s.append(name.as_str());
                s.append(" has unsupported runtime object kind ");
                s.append(render_import_kind(*kind).as_str());
                s.append("; shared object imports are not instantiated yet");
                s
            },
            RuntimeError::HostSignatureMismatch { module, name } => {
                let mut s = String::from_str("registered host function ");
                s.append(module.as_str());
                s.append(".");
                s.append(name.as_str());
                s.append(" does not match the module import signature");
                s
            },
            RuntimeError::HostCallFailed { module, name, error } => {
                let mut s = String::from_str("host function ");
                s.append(module.as_str());
                s.append(".");
                s.append(name.as_str());
                s.append(" failed: ");
                s.append(error.describe().as_str());
                s
            },
            RuntimeError::HostResultArityMismatch { module, name, expected, actual } => {
                let mut s = String::from_str("host function ");
                s.append(module.as_str());
                s.append(".");
                s.append(name.as_str());
                s.append(" returned ");
                s.append(render_decimal(*actual as u64).as_str());
                s.append(" values, expected ");
                s.append(render_decimal(*expected as u64).as_str());
                s
            },
            RuntimeError::HostResultTypeMismatch { module, name, expected, actual } => {
                let mut s = String::from_str("host function ");
                s.append(module.as_str());
                s.append(".");
                s.append(name.as_str());
                s.append(" returned ");
                s.append(render_value_type(*actual).as_str());
                s.append(", expected ");
                s.append(render_value_type(*expected).as_str());
                s
            },
            RuntimeError::FuelExhausted => String::from_str("execution fuel exhausted"),
            RuntimeError::HostCallLimitExceeded { limit } => {
                let mut s = String::from_str("host call limit of ");
                s.append(render_decimal(*limit as u64).as_str());
                s.append(" was exceeded");
                s
            },
            RuntimeError::CallDepthExceeded { limit } => {
                let mut s = String::from_str("maximum call depth of ");
                s.append(render_decimal(*limit as u64).as_str());
                s.append(" was exceeded");
                s
            },
        }
    }
}

} // verus!
