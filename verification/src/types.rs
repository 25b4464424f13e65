//! The decoded form of a WebAssembly module, with its mathematical views.
use vstd::prelude::*;

verus! {

/// The value types that the binary format can name.
#[derive(Debug, Clone, Copy, PartialEq, Eq, Structural)]
pub enum ValueType {
    I32,
    I64,
    F32,
    F64,
    FuncRef,
}

/// A constant initializer. Floating-point constants keep their exact bit patterns.
#[derive(Debug, Clone, Copy, PartialEq, Eq, Structural)]
pub enum Constant {
    I32(i32),
    I64(i64),
    F32(u32),
    F64(u64),
}

impl Constant {
    pub open spec fn spec_value_type(self) -> ValueType {
        match self {
            Constant::I32(_) => ValueType::I32,
            Constant::I64(_) => ValueType::I64,
            Constant::F32(_) => ValueType::F32,
            Constant::F64(_) => ValueType::F64,
        }
    }

    pub fn value_type(self) -> (r: ValueType)
        ensures
            r == self.spec_value_type(),
    {
        match self {
            Constant::I32(_) => ValueType::I32,
            Constant::I64(_) => ValueType::I64,
            Constant::F32(_) => ValueType::F32,
            Constant::F64(_) => ValueType::F64,
        }
    }
}

#[derive(Debug, Clone, PartialEq, Eq)]
pub struct FuncType {
    pub params: Vec<ValueType>,
    pub results: Vec<ValueType>,
}

/// A function signature as sequences of value types.
pub struct FuncTypeView {
    pub params: Seq<ValueType>,
    pub results: Seq<ValueType>,
}

impl View for FuncType {
    type V = FuncTypeView;

    open spec fn view(&self) -> FuncTypeView {
        FuncTypeView { params: self.params@, results: self.results@ }
    }
}

#[derive(Debug, Clone, Copy, PartialEq, Eq, Structural)]
pub struct Limits {
    pub min: u32,
    pub max: Option<u32>,
}

#[derive(Debug, Clone, Copy, PartialEq, Eq, Structural)]
pub struct TableType {
    pub limits: Limits,
}

/// A linear-memory type; `memory64` marks a memory addressed by 64-bit offsets.
#[derive(Debug, Clone, Copy, PartialEq, Eq, Structural)]
pub struct MemoryType {
    pub limits: Limits,
    pub memory64: bool,
}

#[derive(Debug, Clone, Copy, PartialEq, Eq, Structural)]
pub struct GlobalType {
    pub value_type: ValueType,
    pub mutable: bool,
}

#[derive(Debug, Clone, Copy, PartialEq, Eq, Structural)]
pub enum ImportKind {
    Function,
    Table,
    Memory,
    Global,
}

#[derive(Debug, Clone, Copy, PartialEq, Eq, Structural)]
pub enum ImportDesc {
    Function(u32),
    Table(TableType),
    Memory(MemoryType),
    Global(GlobalType),
}

impl ImportDesc {
    pub open spec fn spec_kind(self) -> ImportKind {
        match self {
            ImportDesc::Function(_) => ImportKind::Function,
            ImportDesc::Table(_) => ImportKind::Table,
            ImportDesc::Memory(_) => ImportKind::Memory,
            ImportDesc::Global(_) => ImportKind::Global,
        }
    }

    pub fn kind(self) -> (r: ImportKind)
        ensures
            r == self.spec_kind(),
    {
        match self {
            ImportDesc::Function(_) => ImportKind::Function,
            ImportDesc::Table(_) => ImportKind::Table,
            ImportDesc::Memory(_) => ImportKind::Memory,
            ImportDesc::Global(_) => ImportKind::Global,
        }
    }
}

#[derive(Debug, Clone, PartialEq, Eq)]
pub struct Import {
    pub module: String,
    pub name: String,
    pub desc: ImportDesc,
}

/// An import with its names as character sequences.
pub struct ImportView {
    pub module: Seq<char>,
    pub name: Seq<char>,
    pub desc: ImportDesc,
}

impl View for Import {
    type V = ImportView;

    open spec fn view(&self) -> ImportView {
        ImportView { module: self.module@, name: self.name@, desc: self.desc }
    }
}

impl Import {
    pub fn kind(&self) -> (r: ImportKind)
        ensures
            r == self.desc.spec_kind(),
    {
        self.desc.kind()
    }

    pub fn function_type_index(&self) -> (r: Option<u32>)
        ensures
            r == (match self.desc {
                ImportDesc::Function(t) => Some(t),
                _ => None,
            }),
    {
        match self.desc {
            ImportDesc::Function(type_index) => Some(type_index),
            _ => None,
        }
    }
}

#[derive(Debug, Clone, Copy, PartialEq, Eq, Structural)]
pub struct Global {
    pub ty: GlobalType,
    pub init: Constant,
}

#[derive(Debug, Clone, Copy, PartialEq, Eq, Structural)]
pub enum ExportKind {
    Function,
    Table,
    Memory,
    Global,
}

#[derive(Debug, Clone, PartialEq, Eq)]
pub struct Export {
    pub name: String,
    pub kind: ExportKind,
    pub index: u32,
}

pub struct ExportView {
    pub name: Seq<char>,
    pub kind: ExportKind,
    pub index: u32,
}

impl View for Export {
    type V = ExportView;

    open spec fn view(&self) -> ExportView {
        ExportView { name: self.name@, kind: self.kind, index: self.index }
    }
}

#[derive(Debug, Clone, Copy, PartialEq, Eq, Structural)]
pub enum ElementMode {
    Active { table_index: u32, offset: i32 },
    Passive,
    Declarative,
}

#[derive(Debug, Clone, PartialEq, Eq)]
pub struct ElementSegment {
    pub mode: ElementMode,
    pub function_indices: Vec<u32>,
}

pub struct ElementSegmentView {
    pub mode: ElementMode,
    pub function_indices: Seq<u32>,
}

impl View for ElementSegment {
    type V = ElementSegmentView;

    open spec fn view(&self) -> ElementSegmentView {
        ElementSegmentView { mode: self.mode, function_indices: self.function_indices@ }
    }
}

#[derive(Debug, Clone, PartialEq, Eq)]
pub struct FunctionBody {
    /// Local declarations encoded as (count, type) groups.
    pub locals: Vec<(u32, ValueType)>,
    /// Raw instruction bytes, including the final `end` (0x0b).
    pub code: Vec<u8>,
}

pub struct FunctionBodyView {
    pub locals: Seq<(u32, ValueType)>,
    pub code: Seq<u8>,
}

impl View for FunctionBody {
    type V = FunctionBodyView;

    open spec fn view(&self) -> FunctionBodyView {
        FunctionBodyView { locals: self.locals@, code: self.code@ }
    }
}

/// Placement of a data segment. An active segment's offset is the unsigned
/// address its constant expression denotes in the target memory's address width.
#[derive(Debug, Clone, Copy, PartialEq, Eq, Structural)]
pub enum DataMode {
    Active { memory_index: u32, offset: u64 },
    Passive,
}

#[derive(Debug, Clone, PartialEq, Eq)]
pub struct DataSegment {
    pub mode: DataMode,
    pub bytes: Vec<u8>,
}

pub struct DataSegmentView {
    pub mode: DataMode,
    pub bytes: Seq<u8>,
}

impl View for DataSegment {
    type V = DataSegmentView;

    open spec fn view(&self) -> DataSegmentView {
        DataSegmentView { mode: self.mode, bytes: self.bytes@ }
    }
}

#[derive(Debug, Clone, PartialEq, Eq)]
pub struct Module {
    pub types: Vec<FuncType>,
    /// Imports retain binary-section order; each descriptor belongs to its own index space.
    pub imports: Vec<Import>,
    /// Type indices for defined (non-imported) functions only.
    pub function_type_indices: Vec<u32>,
    pub tables: Vec<TableType>,
    pub memories: Vec<MemoryType>,
    pub globals: Vec<Global>,
    pub exports: Vec<Export>,
    pub start: Option<u32>,
    pub elements: Vec<ElementSegment>,
    pub code: Vec<FunctionBody>,
    pub data: Vec<DataSegment>,
    /// Bulk-memory DataCount section, when present before Code.
    pub data_count: Option<u32>,
}

/// A module as sequences of the views of its parts.
pub struct ModuleView {
    pub types: Seq<FuncTypeView>,
    pub imports: Seq<ImportView>,
    pub function_type_indices: Seq<u32>,
    pub tables: Seq<TableType>,
    pub memories: Seq<MemoryType>,
    pub globals: Seq<Global>,
    pub exports: Seq<ExportView>,
    pub start: Option<u32>,
    pub elements: Seq<ElementSegmentView>,
    pub code: Seq<FunctionBodyView>,
    pub data: Seq<DataSegmentView>,
    pub data_count: Option<u32>,
}

pub open spec fn func_type_view() -> spec_fn(FuncType) -> FuncTypeView {
    |t: FuncType| t@
}

pub open spec fn import_view() -> spec_fn(Import) -> ImportView {
    |i: Import| i@
}

pub open spec fn export_view() -> spec_fn(Export) -> ExportView {
    |e: Export| e@
}

pub open spec fn element_view() -> spec_fn(ElementSegment) -> ElementSegmentView {
    |e: ElementSegment| e@
}

pub open spec fn body_view() -> spec_fn(FunctionBody) -> FunctionBodyView {
    |b: FunctionBody| b@
}

pub open spec fn data_view() -> spec_fn(DataSegment) -> DataSegmentView {
    |d: DataSegment| d@
}

impl View for Module {
    type V = ModuleView;

    open spec fn view(&self) -> ModuleView {
        ModuleView {
            types: self.types@.map_values(func_type_view()),
            imports: self.imports@.map_values(import_view()),
            function_type_indices: self.function_type_indices@,
            tables: self.tables@,
            memories: self.memories@,
            globals: self.globals@,
            exports: self.exports@.map_values(export_view()),
            start: self.start,
            elements: self.elements@.map_values(element_view()),
            code: self.code@.map_values(body_view()),
            data: self.data@.map_values(data_view()),
            data_count: self.data_count,
        }
    }
}

pub proof fn lemma_map_values_push<A, B>(s: Seq<A>, x: A, f: spec_fn(A) -> B)
    ensures
        s.push(x).map_values(f) == s.map_values(f).push(f(x)),
{
    assert(s.push(x).map_values(f) =~= s.map_values(f).push(f(x)));
}

pub proof fn lemma_map_values_add<A, B>(s: Seq<A>, t: Seq<A>, f: spec_fn(A) -> B)
    ensures
        (s + t).map_values(f) == s.map_values(f) + t.map_values(f),
{
    assert((s + t).map_values(f) =~= s.map_values(f) + t.map_values(f));
}

/// The module with nothing in it.
pub open spec fn empty_module() -> ModuleView {
    ModuleView {
        types: Seq::empty(),
        imports: Seq::empty(),
        function_type_indices: Seq::empty(),
        tables: Seq::empty(),
        memories: Seq::empty(),
        globals: Seq::empty(),
        exports: Seq::empty(),
        start: None,
        elements: Seq::empty(),
        code: Seq::empty(),
        data: Seq::empty(),
        data_count: None,
    }
}

impl Default for Module {
    fn default() -> (m: Module)
        ensures
            m@ == empty_module(),
    {
        let m = Module {
            types: Vec::new(),
            imports: Vec::new(),
            function_type_indices: Vec::new(),
            tables: Vec::new(),
            memories: Vec::new(),
            globals: Vec::new(),
            exports: Vec::new(),
            start: None,
            elements: Vec::new(),
            code: Vec::new(),
            data: Vec::new(),
            data_count: None,
        };
        assert(m@.types =~= Seq::empty());
        assert(m@.imports =~= Seq::empty());
        assert(m@.exports =~= Seq::empty());
        assert(m@.elements =~= Seq::empty());
        assert(m@.code =~= Seq::empty());
        assert(m@.data =~= Seq::empty());
        m
    }
}

} // verus!
