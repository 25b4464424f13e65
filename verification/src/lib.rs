//! A WebAssembly binary parser and the verified building blocks of a stack interpreter.
use vstd::prelude::*;

pub mod bench;
pub mod control;
pub mod cursor;
pub mod error;
pub mod exec;
pub mod frames;
pub mod host;
pub mod instantiate;
pub mod interp;
pub mod grammar;
pub mod leb128;
pub mod memory;
pub mod numeric;
pub mod parser;
pub mod queries;
pub mod runtime_error;
pub mod setup;
pub mod text;
pub mod types;
pub mod value;

pub use error::ParseError;
pub use leb128::{decode_i32, decode_i64, decode_s33, decode_u32};
pub use parser::parse_module;
pub use types::{
    Constant, DataMode, DataSegment, ElementMode, ElementSegment, Export, ExportKind, FuncType,
    FunctionBody, Global, GlobalType, Import, ImportDesc, ImportKind, Limits, MemoryType, Module,
    TableType, ValueType,
};

verus! {
} // verus!
