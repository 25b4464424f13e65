//! Instantiation: the control maps of the bodies, the imported objects an instance uses,
//! its own table and globals, and the initialisation of memory and table from the active
//! data and element segments.
use vstd::prelude::*;
use crate::control::{ControlMap, InfoView, build_control_map, map_wf, spec_scan};
use crate::host::{FunctionRef, GlobalHandle, HostRegistry, TableHandle, TableHandleError};
use crate::instantiate::{
    lemma_lookup_global, lemma_lookup_memory, lemma_lookup_table, RuntimeLimits, lookup_global, lookup_memory, lookup_table, spec_memory_limits, spec_memory_runtime_limit,
    spec_table_limits, spec_value_from_constant, validate_memory_limits, validate_memory_runtime_limit,
    validate_table_limits, value_from_constant,
};
use crate::interp::{code_of, map_table_element_error, module_ok, spec_table_element_error, Machine};
use crate::memory::{LinearMemory, MAX_MEMORY_PAGES, WASM_PAGE_SIZE, zeros};
use crate::numeric::{unsigned32, lemma_cast32};
use crate::runtime_error::RuntimeError;
use crate::types::{DataMode, DataSegment, ElementMode, ElementSegment, Global, Import, ImportDesc, Module, TableType};

verus! {

/// The control maps of the bodies from `d` on, or the error of the first body without
/// well-nested control.
pub open spec fn maps_error(module: Module, d: int) -> Option<RuntimeError>
    decreases module.code@.len() - d,
{
    if d < 0 || d >= module.code@.len() {
        None
    } else {
        match spec_scan(module, code_of(module, d), 0, Seq::empty(), Seq::new(code_of(module, d).len(), |i: int| None::<InfoView>)) {
            Err(e) => Some(e),
            Ok(_) => maps_error(module, d + 1),
        }
    }
}

/// Builds the control map of every body, in order.
pub fn build_control_maps(module: &Module) -> (r: Result<Vec<ControlMap>, RuntimeError>)
    ensures
        match maps_error(*module, 0) {
            Some(e) => r == Err::<Vec<ControlMap>, RuntimeError>(e),
            None => r matches Ok(maps) && maps@.len() == module.code@.len() && forall|d: int|
                0 <= d < maps@.len() ==> #[trigger] map_wf(code_of(*module, d), maps@[d].view()),
        },
{
    let mut maps: Vec<ControlMap> = Vec::new();
    let mut d: usize = 0;
    while d < module.code.len()
        invariant
            d <= module.code@.len(),
            maps@.len() == d,
            maps_error(*module, 0) == maps_error(*module, d as int),
            forall|k: int| 0 <= k < d ==> #[trigger] map_wf(code_of(*module, k), maps@[k].view()),
        decreases module.code@.len() - d,
    {
        let map = build_control_map(module, module.code[d].code.as_slice())?;
        maps.push(map);
        d = d + 1;
    }
    Ok(maps)
}

/// The check of active data segment `i` before any segment is written: it must name memory
/// 0, end inside the 64-bit range and inside the memory, which must exist.
pub open spec fn data_check(mem_len: Option<nat>, seg: DataSegment, i: int) -> Option<RuntimeError> {
    match seg.mode {
        DataMode::Passive => None,
        DataMode::Active { memory_index, offset } => {
            let length = seg.bytes@.len();
            let oob = RuntimeError::DataSegmentOutOfBounds { segment: i as usize, offset, length: length as usize };
            if memory_index != 0 {
                Some(RuntimeError::MemoryIndexOutOfBounds(memory_index))
            } else if offset + length > u64::MAX {
                Some(oob)
            } else {
                match mem_len {
                    None => Some(RuntimeError::MemoryUnavailable),
                    Some(n) => if offset + length > n { Some(oob) } else { None },
                }
            }
        },
    }
}

pub open spec fn data_error(mem_len: Option<nat>, data: Seq<DataSegment>, i: int) -> Option<RuntimeError>
    decreases data.len() - i,
{
    if i < 0 || i >= data.len() {
        None
    } else {
        match data_check(mem_len, data[i], i) {
            Some(e) => Some(e),
            None => data_error(mem_len, data, i + 1),
        }
    }
}

/// The memory after writing the active segments from `i` on, in order.
pub open spec fn data_applied(mem: Seq<u8>, data: Seq<DataSegment>, i: int) -> Seq<u8>
    decreases data.len() - i,
{
    if i < 0 || i >= data.len() {
        mem
    } else {
        let next = match data[i].mode {
            DataMode::Passive => mem,
            DataMode::Active { offset, .. } => mem.subrange(0, offset as int) + data[i].bytes@ + mem.subrange(
                offset + data[i].bytes@.len(),
                mem.len() as int,
            ),
        };
        data_applied(next, data, i + 1)
    }
}

pub open spec fn tab_len_of(table: Option<TableHandle>) -> Option<nat> {
    match table {
        Some(t) => Some(t@.len()),
        None => None,
    }
}

pub open spec fn mem_len_of(memory: Option<LinearMemory>) -> Option<nat> {
    match memory {
        Some(m) => Some(m@.len()),
        None => None,
    }
}

proof fn lemma_data_error_none(mem_len: Option<nat>, data: Seq<DataSegment>, i: int, j: int)
    requires
        0 <= i <= j < data.len(),
        data_error(mem_len, data, i) is None,
    ensures
        data_check(mem_len, data[j], j) is None,
    decreases j - i,
{
    if i < j {
        lemma_data_error_none(mem_len, data, i + 1, j);
    }
}

/// Writes the active data segments into memory, after checking all of them first, so that
/// a segment out of bounds leaves memory untouched.
pub fn initialize_data_segments(memory: &mut Option<LinearMemory>, data: &[DataSegment]) -> (r: Result<(), RuntimeError>)
    requires
        *old(memory) matches Some(m) ==> m.wf(),
    ensures
        *final(memory) matches Some(m) ==> m.wf(),
        (*final(memory)) is Some == (*old(memory)) is Some,
        match data_error(mem_len_of(*old(memory)), data@, 0) {
            Some(e) => r == Err::<(), RuntimeError>(e) && *final(memory) == *old(memory),
            None => r is Ok && ((*old(memory)) matches Some(m) ==> final(memory)->Some_0@ == data_applied(
                m@,
                data@,
                0,
            ) && final(memory)->Some_0.spec_max_pages() == m.spec_max_pages()),
        },
{
    let ghost mem_len = mem_len_of(*memory);
    let mut i: usize = 0;
    while i < data.len()
        invariant
            i <= data@.len(),
            mem_len == mem_len_of(*memory),
            *memory == *old(memory),
            *old(memory) matches Some(m) ==> m.wf(),
            data_error(mem_len, data@, 0) == data_error(mem_len, data@, i as int),
        decreases data@.len() - i,
    {
        let segment = &data[i];
        match segment.mode {
            DataMode::Passive => {},
            DataMode::Active { memory_index, offset } => {
                if memory_index != 0 {
                    return Err(RuntimeError::MemoryIndexOutOfBounds(memory_index));
                }
                let length = segment.bytes.len();
                let end = match offset.checked_add(length as u64) {
                    Some(e) => e,
                    None => return Err(RuntimeError::DataSegmentOutOfBounds { segment: i, offset, length }),
                };
                let memory_len = match memory {
                    Some(m) => m.bytes().len(),
                    None => return Err(RuntimeError::MemoryUnavailable),
                };
                if end > memory_len as u64 {
                    return Err(RuntimeError::DataSegmentOutOfBounds { segment: i, offset, length });
                }
            },
        }
        i = i + 1;
    }
    let mut i: usize = 0;
    while i < data.len()
        invariant
            i <= data@.len(),
            data_error(mem_len, data@, 0) is None,
            mem_len == mem_len_of(*old(memory)),
            (*memory) is Some == (*old(memory)) is Some,
            *memory matches Some(m) ==> m.wf() && m@.len() == mem_len->Some_0,
            (*old(memory)) matches Some(m0) ==> data_applied(m0@, data@, 0) == data_applied(
                memory->Some_0@,
                data@,
                i as int,
            ) && memory->Some_0.spec_max_pages() == m0.spec_max_pages(),
        decreases data@.len() - i,
    {
        proof {
            lemma_data_error_none(mem_len, data@, 0, i as int);
        }
        let segment = &data[i];
        match segment.mode {
            DataMode::Passive => {},
            DataMode::Active { offset, .. } => {
                match memory {
                    Some(m) => {
                        let memory_len = m.bytes().len();
                        assert(offset + segment.bytes@.len() <= memory_len);
                        m.write_range(offset as usize, segment.bytes.as_slice());
                        assert(m@.len() % (crate::memory::WASM_PAGE_SIZE as nat) == 0);
                    },
                    None => {},
                }
            },
        }
        i = i + 1;
    }
    Ok(())
}

/// The check of active element segment `i` before any element is written: it must name
/// table 0, which must exist, and fit inside it.
pub open spec fn element_check(table_len: Option<nat>, seg: ElementSegment, i: int) -> Option<RuntimeError> {
    match seg.mode {
        ElementMode::Active { table_index, offset } => {
            let start = unsigned32(offset);
            let length = seg.function_indices@.len();
            let oob = RuntimeError::ElementSegmentOutOfBounds {
                segment: i as usize,
                offset: start as u64,
                length: length as usize,
            };
            if table_index != 0 {
                Some(RuntimeError::TableIndexOutOfBounds(table_index))
            } else if start + length > u64::MAX {
                Some(oob)
            } else {
                match table_len {
                    None => Some(RuntimeError::TableIndexOutOfBounds(0)),
                    Some(n) => if start + length > n { Some(oob) } else { None },
                }
            }
        },
        _ => None,
    }
}

pub open spec fn element_error(table_len: Option<nat>, elements: Seq<ElementSegment>, i: int) -> Option<
    RuntimeError,
>
    decreases elements.len() - i,
{
    if i < 0 || i >= elements.len() {
        None
    } else {
        match element_check(table_len, elements[i], i) {
            Some(e) => Some(e),
            None => element_error(table_len, elements, i + 1),
        }
    }
}

/// The slots after storing references to `owner`'s functions for the active segments
/// from `i` on, in order.
pub open spec fn elements_applied(slots: Seq<Option<FunctionRef>>, elements: Seq<ElementSegment>, owner: u64, i: int) -> Seq<
    Option<FunctionRef>,
>
    decreases elements.len() - i,
{
    if i < 0 || i >= elements.len() {
        slots
    } else {
        let next = match elements[i].mode {
            ElementMode::Active { offset, .. } => {
                let start = unsigned32(offset);
                Seq::new(slots.len(), |k: int| if start <= k < start + elements[i].function_indices@.len() {
                    Some(FunctionRef { owner, function_index: elements[i].function_indices@[k - start] })
                } else {
                    slots[k]
                })
            },
            _ => slots,
        };
        elements_applied(next, elements, owner, i + 1)
    }
}

proof fn lemma_element_error_none(table_len: Option<nat>, elements: Seq<ElementSegment>, i: int, j: int)
    requires
        0 <= i <= j < elements.len(),
        element_error(table_len, elements, i) is None,
    ensures
        element_check(table_len, elements[j], j) is None,
    decreases j - i,
{
    if i < j {
        lemma_element_error_none(table_len, elements, i + 1, j);
    }
}

/// Stores the active element segments into the table, after checking all of them first,
/// so that a segment out of bounds leaves the table untouched.
pub fn initialize_element_segments(
    table: &mut Option<TableHandle>,
    elements: &[ElementSegment],
    identity: u64,
) -> (r: Result<(), RuntimeError>)
    requires
        *old(table) matches Some(t) ==> t.wf() && t.spec_owner() == Some(identity),
    ensures
        *final(table) matches Some(t) ==> t.wf() && t.spec_owner() == Some(identity),
        (*final(table)) is Some == (*old(table)) is Some,
        match element_error(tab_len_of(*old(table)), elements@, 0) {
            Some(e) => r == Err::<(), RuntimeError>(e) && *final(table) == *old(table),
            None => r is Ok && ((*old(table)) matches Some(t) ==> final(table)->Some_0@ == elements_applied(
                t@,
                elements@,
                identity,
                0,
            ) && final(table)->Some_0.spec_maximum() == t.spec_maximum()),
        },
{
    let ghost t0 = *table;
    let mut i: usize = 0;
    while i < elements.len()
        invariant
            i <= elements@.len(),
            *table == *old(table),
            t0 == *old(table),
            *table matches Some(t) ==> t.wf() && t.spec_owner() == Some(identity),
            element_error(tab_len_of(t0), elements@, 0) == element_error(tab_len_of(t0), elements@, i as int),
        decreases elements@.len() - i,
    {
        let segment = &elements[i];
        match segment.mode {
            ElementMode::Active { table_index, offset } => {
                if table_index != 0 {
                    return Err(RuntimeError::TableIndexOutOfBounds(table_index));
                }
                proof {
                    lemma_cast32(offset, 0);
                }
                let start = (offset as u32) as u64;
                let length = segment.function_indices.len();
                let end = match start.checked_add(length as u64) {
                    Some(e) => e,
                    None => return Err(RuntimeError::ElementSegmentOutOfBounds { segment: i, offset: start, length }),
                };
                let table_len = match table {
                    Some(t) => t.len(),
                    None => return Err(RuntimeError::TableIndexOutOfBounds(0)),
                };
                if end > table_len as u64 {
                    return Err(RuntimeError::ElementSegmentOutOfBounds { segment: i, offset: start, length });
                }
            },
            _ => {},
        }
        i = i + 1;
    }
    let mut i: usize = 0;
    while i < elements.len()
        invariant
            i <= elements@.len(),
            element_error(tab_len_of(t0), elements@, 0) is None,
            t0 == *old(table),
            (*table) is Some == t0 is Some,
            *table matches Some(t) ==> t.wf() && t.spec_owner() == Some(identity) && t@.len() == t0->Some_0@.len()
                && t.spec_maximum() == t0->Some_0.spec_maximum(),
            t0 matches Some(tt) ==> elements_applied(tt@, elements@, identity, 0) == elements_applied(
                table->Some_0@,
                elements@,
                identity,
                i as int,
            ),
        decreases elements@.len() - i,
    {
        proof {
            lemma_element_error_none(tab_len_of(t0), elements@, 0, i as int);
        }
        let segment = &elements[i];
        match segment.mode {
            ElementMode::Active { offset, .. } => {
                match table {
                    Some(t) => {
                        proof {
                            lemma_cast32(offset, 0);
                        }
                        let start = offset as u32;
                        let ghost before = t@;
                        let ghost target = Seq::new(before.len(), |k: int| if start <= k < start
                            + segment.function_indices@.len() {
                            Some(FunctionRef { owner: identity, function_index: segment.function_indices@[k - start] })
                        } else {
                            before[k]
                        });
                        let mut slot: usize = 0;
                        while slot < segment.function_indices.len()
                            invariant
                                target == Seq::new(before.len(), |k: int| if start <= k < start
                                    + segment.function_indices@.len() {
                                    Some(FunctionRef { owner: identity, function_index: segment.function_indices@[k - start] })
                                } else {
                                    before[k]
                                }),
                                slot <= segment.function_indices@.len(),
                                start + segment.function_indices@.len() <= before.len(),
                                t.wf(),
                                t.spec_owner() == Some(identity),
                                t.spec_maximum() == t0->Some_0.spec_maximum(),
                                t@.len() == before.len(),
                                forall|k: int| 0 <= k < t@.len() ==> #[trigger] t@[k] == if start <= k < start + slot {
                                    target[k]
                                } else {
                                    before[k]
                                },
                            decreases segment.function_indices@.len() - slot,
                        {
                            let index = start + slot as u32;
                            let ghost current = t@;
                            let _ = t.set_for_instance(index, segment.function_indices[slot], identity);
                            assert(t@ == current.update(
                                index as int,
                                Some(FunctionRef { owner: identity, function_index: segment.function_indices@[slot as int] }),
                            ));
                            assert(index as int == start + slot);
                            slot = slot + 1;
                            assert forall|k: int| 0 <= k < t@.len() implies #[trigger] t@[k] == if start <= k < start
                                + slot {
                                target[k]
                            } else {
                                before[k]
                            } by {
                                if k == index as int {
                                    assert(target[k] == Some(
                                        FunctionRef {
                                            owner: identity,
                                            function_index: segment.function_indices@[k - start],
                                        },
                                    ));
                                } else {
                                    assert(t@[k] == current[k]);
                                }
                            }
                        }
                        assert(t@ =~= target);
                    },
                    None => {},
                }
            },
            _ => {},
        }
        i = i + 1;
    }
    Ok(())
}

/// The table a module defines, bound to instance `identity`.
pub fn create_defined_table(table_type: TableType, identity: u64) -> (r: Result<TableHandle, RuntimeError>)
    ensures
        (table_type.limits.max matches Some(m) && table_type.limits.min > m) ==> r == Err::<TableHandle, RuntimeError>(
            RuntimeError::ControlInvariant("validated defined table has inconsistent limits"),
        ),
        r matches Ok(t) ==> t.wf() && t@ == Seq::new(table_type.limits.min as nat, |i: int| None::<FunctionRef>)
            && t.spec_maximum() == table_type.limits.max && t.spec_owner() == Some(identity),
        r is Err && !(table_type.limits.max matches Some(m) && table_type.limits.min > m) ==> r == Err::<
            TableHandle,
            RuntimeError,
        >(RuntimeError::TableAllocationFailed { elements: table_type.limits.min }),
        table_type.limits.min == 0 ==> r is Ok,
{
    let mut table = match TableHandle::new(table_type.limits.min, table_type.limits.max) {
        Ok(t) => t,
        Err(TableHandleError::AllocationFailed { elements }) => {
            return Err(RuntimeError::TableAllocationFailed { elements });
        },
        Err(TableHandleError::InvalidLimits { .. }) => {
            return Err(RuntimeError::ControlInvariant("validated defined table has inconsistent limits"));
        },
        Err(other) => return Err(map_table_element_error(other, 0)),
    };
    match table.bind(identity) {
        Ok(()) => Ok(table),
        Err(_) => Err(RuntimeError::ControlInvariant("fresh defined table is unexpectedly already bound")),
    }
}

/// Binds an imported host table to instance `identity`; a table that another live instance
/// holds is refused.
pub fn bind_imported_table(import: &Import, table: &mut TableHandle, identity: u64) -> (r: Result<(), RuntimeError>)
    ensures
        final(table)@ == old(table)@,
        final(table).spec_maximum() == old(table).spec_maximum(),
        (old(table).spec_owner() matches Some(o) && o != identity) ==> r == Err::<(), RuntimeError>(
            RuntimeError::HostTableAlreadyBound { module: import.module, name: import.name },
        ),
        !(old(table).spec_owner() matches Some(o) && o != identity) ==> (r is Ok && final(table).spec_owner()
            == Some(identity)),
{
    match table.bind(identity) {
        Ok(()) => Ok(()),
        Err(TableHandleError::AlreadyBound) => Err(RuntimeError::HostTableAlreadyBound {
            module: import.module.clone(),
            name: import.name.clone(),
        }),
        Err(other) => Err(map_table_element_error(other, 0)),
    }
}

/// The globals a module defines, each holding its initial constant.
pub fn defined_globals(globals: &[Global]) -> (r: Vec<GlobalHandle>)
    ensures
        r@.len() == globals@.len(),
        forall|i: int| 0 <= i < r@.len() ==> {
            &&& (#[trigger] r@[i]).wf()
            &&& r@[i].spec_value() == spec_value_from_constant(globals@[i].init)
            &&& r@[i].spec_mutable() == globals@[i].ty.mutable
        },
{
    let mut r: Vec<GlobalHandle> = Vec::new();
    let mut i: usize = 0;
    while i < globals.len()
        invariant
            i <= globals@.len(),
            r@.len() == i,
            forall|k: int| 0 <= k < i ==> {
                &&& (#[trigger] r@[k]).wf()
                &&& r@[k].spec_value() == spec_value_from_constant(globals@[k].init)
                &&& r@[k].spec_mutable() == globals@[k].ty.mutable
            },
        decreases globals@.len() - i,
    {
        r.push(GlobalHandle::new(value_from_constant(globals[i].init), globals[i].ty.mutable));
        i = i + 1;
    }
    r
}


/// The position among the imports of the first one that `memory` (else `table`) selects.
pub open spec fn first_import(imports: Seq<Import>, memory: bool, i: int) -> Option<int>
    decreases imports.len() - i,
{
    if i < 0 || i >= imports.len() {
        None
    } else if (memory && imports[i].desc is Memory) || (!memory && imports[i].desc is Table) {
        Some(i)
    } else {
        first_import(imports, memory, i + 1)
    }
}

/// The outcome of resolving the memory import: nothing to resolve, its registry entry, or why
/// the registered memory cannot stand for it.
pub open spec fn spec_imported_memory(module: Module, hosts: HostRegistry, limits: RuntimeLimits) -> Result<
    Option<crate::host::HostMemoryEntry>,
    RuntimeError,
> {
    match first_import(module.imports@, true, 0) {
        None => Ok(None),
        Some(k) => {
            let import = module.imports@[k];
            let mt = import.desc->Memory_0;
            match lookup_memory(hosts, import.module@, import.name@) {
                None => Err(RuntimeError::UnresolvedMemoryImport { module: import.module, name: import.name }),
                Some(m) => match spec_memory_limits(import, mt.limits.min, mt.limits.max, m) {
                    Err(e) => Err(e),
                    Ok(_) => match spec_memory_runtime_limit(import, m, limits.max_memory_pages) {
                        Err(e) => Err(e),
                        Ok(_) => Ok(Some(m)),
                    },
                },
            }
        },
    }
}

/// Resolves the module's memory import, if it has one, to its position in the registry.
pub fn imported_memory_entry(module: &Module, hosts: &HostRegistry, limits: RuntimeLimits) -> (r: Result<
    Option<usize>,
    RuntimeError,
>)
    requires
        hosts.wf(),
    ensures
        match spec_imported_memory(*module, *hosts, limits) {
            Ok(None) => r == Ok::<Option<usize>, RuntimeError>(None),
            Ok(Some(m)) => r matches Ok(Some(i)) && i < hosts.memories@.len() && hosts.memories@[i as int] == m,
            Err(e) => r == Err::<Option<usize>, RuntimeError>(e),
        },
{
    let mut i: usize = 0;
    while i < module.imports.len()
        invariant
            hosts.wf(),
            i <= module.imports@.len(),
            first_import(module.imports@, true, 0) == first_import(module.imports@, true, i as int),
        decreases module.imports@.len() - i,
    {
        let import = &module.imports[i];
        if let ImportDesc::Memory(memory_type) = import.desc {
            let m = match hosts.find_memory(&import.module, &import.name) {
                Some(m) => m,
                None => {
                    return Err(RuntimeError::UnresolvedMemoryImport {
                        module: import.module.clone(),
                        name: import.name.clone(),
                    });
                },
            };
            proof {
                lemma_lookup_memory(*hosts, m as int, import.module@, import.name@);
            }
            validate_memory_limits(import, memory_type.limits.min, memory_type.limits.max, &hosts.memories[m])?;
            validate_memory_runtime_limit(import, &hosts.memories[m], limits.max_memory_pages)?;
            return Ok(Some(m));
        }
        i = i + 1;
    }
    Ok(None)
}

/// The outcome of resolving the table import: nothing to resolve, its registry entry, or why
/// the registered table cannot stand for it.
pub open spec fn spec_imported_table(module: Module, hosts: HostRegistry) -> Result<
    Option<crate::host::HostTableEntry>,
    RuntimeError,
> {
    match first_import(module.imports@, false, 0) {
        None => Ok(None),
        Some(k) => {
            let import = module.imports@[k];
            let tt = import.desc->Table_0;
            match lookup_table(hosts, import.module@, import.name@) {
                None => Err(RuntimeError::UnresolvedTableImport { module: import.module, name: import.name }),
                Some(t) => match spec_table_limits(import, tt.limits.min, tt.limits.max, t) {
                    Err(e) => Err(e),
                    Ok(_) => Ok(Some(t)),
                },
            }
        },
    }
}

/// Resolves the module's table import, if it has one, to its position in the registry.
pub fn imported_table_entry(module: &Module, hosts: &HostRegistry) -> (r: Result<Option<usize>, RuntimeError>)
    requires
        hosts.wf(),
    ensures
        match spec_imported_table(*module, *hosts) {
            Ok(None) => r == Ok::<Option<usize>, RuntimeError>(None),
            Ok(Some(t)) => r matches Ok(Some(i)) && i < hosts.tables@.len() && hosts.tables@[i as int] == t,
            Err(e) => r == Err::<Option<usize>, RuntimeError>(e),
        },
{
    let mut i: usize = 0;
    while i < module.imports.len()
        invariant
            hosts.wf(),
            i <= module.imports@.len(),
            first_import(module.imports@, false, 0) == first_import(module.imports@, false, i as int),
        decreases module.imports@.len() - i,
    {
        let import = &module.imports[i];
        if let ImportDesc::Table(table_type) = import.desc {
            let t = match hosts.find_table(&import.module, &import.name) {
                Some(t) => t,
                None => {
                    return Err(RuntimeError::UnresolvedTableImport {
                        module: import.module.clone(),
                        name: import.name.clone(),
                    });
                },
            };
            proof {
                lemma_lookup_table(*hosts, t as int, import.module@, import.name@);
            }
            validate_table_limits(import, table_type.limits.min, table_type.limits.max, &hosts.tables[t])?;
            return Ok(Some(t));
        }
        i = i + 1;
    }
    Ok(None)
}

/// The error of the first global import, from position `i` on, that the registry cannot
/// provide with the right type and mutability.
pub open spec fn first_global_error(module: Module, hosts: HostRegistry, i: int) -> Option<RuntimeError>
    decreases module.imports@.len() - i,
{
    if i < 0 || i >= module.imports@.len() {
        None
    } else {
        match crate::instantiate::global_binding(hosts, module.imports@[i]) {
            Some(e) => Some(e),
            None => first_global_error(module, hosts, i + 1),
        }
    }
}

/// The registry positions of the globals the module imports, in import order (the order of
/// the global index space); each must have the imported type and mutability.
pub fn imported_global_entries(module: &Module, hosts: &HostRegistry) -> (r: Result<Vec<usize>, RuntimeError>)
    requires
        hosts.wf(),
    ensures
        r matches Ok(v) ==> forall|k: int| 0 <= k < v@.len() ==> #[trigger] v@[k] < hosts.globals@.len(),
        r matches Ok(v) ==> v@.len() == crate::grammar::imported_globals(module@.imports).len(),
        r matches Ok(v) ==> v@.len() == crate::grammar::global_imports(module@.imports).len() && forall|k: int|
            0 <= k < v@.len() ==> crate::instantiate::has_global(
                *hosts,
                #[trigger] crate::grammar::global_imports(module@.imports)[k].module,
                crate::grammar::global_imports(module@.imports)[k].name,
                v@[k] as int,
            ),
        r is Err <==> first_global_error(*module, *hosts, 0) is Some,
        r matches Err(e) ==> first_global_error(*module, *hosts, 0) == Some(e),
{
    let mut entries: Vec<usize> = Vec::new();
    let mut i: usize = 0;
    while i < module.imports.len()
        invariant
            hosts.wf(),
            i <= module.imports@.len(),
            first_global_error(*module, *hosts, 0) == first_global_error(*module, *hosts, i as int),
            entries@.len() == crate::grammar::select(
                module@.imports.take(i as int),
                crate::grammar::pick_global(),
            ).len(),
            forall|k: int| 0 <= k < entries@.len() ==> #[trigger] entries@[k] < hosts.globals@.len(),
            entries@.len() == crate::grammar::select(
                module@.imports.take(i as int),
                crate::grammar::pick_global_import(),
            ).len(),
            forall|k: int|
                0 <= k < entries@.len() ==> crate::instantiate::has_global(
                    *hosts,
                    #[trigger] crate::grammar::select(
                        module@.imports.take(i as int),
                        crate::grammar::pick_global_import(),
                    )[k].module,
                    crate::grammar::select(module@.imports.take(i as int), crate::grammar::pick_global_import())[k].name,
                    entries@[k] as int,
                ),
        decreases module.imports@.len() - i,
    {
        proof {
            crate::grammar::lemma_select_step(module@.imports, crate::grammar::pick_global(), i as int);
            crate::grammar::lemma_select_step(module@.imports, crate::grammar::pick_global_import(), i as int);
        }
        let import = &module.imports[i];
        if let ImportDesc::Global(global_type) = import.desc {
            let g = match hosts.find_global(&import.module, &import.name) {
                Some(g) => g,
                None => {
                    return Err(RuntimeError::UnresolvedGlobalImport {
                        module: import.module.clone(),
                        name: import.name.clone(),
                    });
                },
            };
            proof {
                lemma_lookup_global(*hosts, g as int, import.module@, import.name@);
            }
            let global = &hosts.globals[g];
            if global.value_type != global_type.value_type {
                return Err(RuntimeError::HostGlobalTypeMismatch {
                    module: import.module.clone(),
                    name: import.name.clone(),
                    expected: global_type.value_type,
                    actual: global.value_type,
                });
            }
            if global.mutable != global_type.mutable {
                return Err(RuntimeError::HostGlobalMutabilityMismatch {
                    module: import.module.clone(),
                    name: import.name.clone(),
                    expected: global_type.mutable,
                    actual: global.mutable,
                });
            }
            entries.push(g);
        }
        i = i + 1;
    }
    proof {
        assert(module@.imports.take(module@.imports.len() as int) =~= module@.imports);
    }
    Ok(entries)
}


/// The memory an instance starts from, before its data segments: the imported one, else a
/// zeroed memory of the module's declared minimum, else none.
pub open spec fn memory_base(module: Module, imported: Option<LinearMemory>) -> Option<Seq<u8>> {
    match imported {
        Some(m) => Some(m@),
        None => if module.memories@.len() > 0 {
            Some(zeros((module.memories@[0].limits.min * WASM_PAGE_SIZE) as nat))
        } else {
            None
        },
    }
}

/// The table an instance starts from, before its element segments: the imported one, else
/// an empty table of the module's declared minimum, else none.
pub open spec fn table_base(module: Module, imported: Option<TableHandle>) -> Option<Seq<Option<FunctionRef>>> {
    match imported {
        Some(t) => Some(t@),
        None => if module.tables@.len() > 0 {
            Some(Seq::new(module.tables@[0].limits.min as nat, |i: int| None::<FunctionRef>))
        } else {
            None
        },
    }
}

pub open spec fn len_of<T>(s: Option<Seq<T>>) -> Option<nat> {
    match s {
        Some(b) => Some(b.len()),
        None => None,
    }
}

/// The position of the module's first table import.
fn first_table_import(module: &Module) -> (r: Option<usize>)
    ensures
        first_import(module.imports@, false, 0) is None <==> r is None,
        r matches Some(k) ==> first_import(module.imports@, false, 0) == Some(k as int) && k < module.imports@.len(),
{
    let mut i: usize = 0;
    while i < module.imports.len()
        invariant
            i <= module.imports@.len(),
            first_import(module.imports@, false, 0) == first_import(module.imports@, false, i as int),
        decreases module.imports@.len() - i,
    {
        if let ImportDesc::Table(_) = module.imports[i].desc {
            return Some(i);
        }
        i = i + 1;
    }
    None
}

/// The page cap that a created memory must respect: the runtime's, within the format's.
pub open spec fn memory_cap(limits: RuntimeLimits) -> u32 {
    if limits.max_memory_pages < MAX_MEMORY_PAGES { limits.max_memory_pages } else { MAX_MEMORY_PAGES }
}

/// Instantiation creates the module's own memory: it imports none and defines one.
pub open spec fn creates_memory(module: Module, imported_memory: Option<LinearMemory>) -> bool {
    imported_memory is None && module.memories@.len() > 0
}

/// Instantiation creates the module's own table: it imports none and defines one.
pub open spec fn creates_table(module: Module, imported_table: Option<TableHandle>) -> bool {
    imported_table is None && module.tables@.len() > 0
}

/// Why the memory cannot be had before any allocation: a created memory whose minimum
/// passes the cap.
pub open spec fn memory_error(module: Module, imported_memory: Option<LinearMemory>, limits: RuntimeLimits) -> Option<
    RuntimeError,
> {
    if creates_memory(module, imported_memory) && module.memories@[0].limits.min > memory_cap(limits) {
        Some(RuntimeError::MemoryLimitExceeded { minimum: module.memories@[0].limits.min, limit: memory_cap(limits) })
    } else {
        None
    }
}

/// Why the table cannot be had before any allocation: an imported table that another
/// instance holds, or a defined table whose minimum passes its maximum.
pub open spec fn table_error(module: Module, imported_table: Option<TableHandle>, identity: u64) -> Option<RuntimeError> {
    match imported_table {
        Some(t) => if t.spec_owner() matches Some(o) && o != identity {
            let import = module.imports@[first_import(module.imports@, false, 0)->Some_0];
            Some(RuntimeError::HostTableAlreadyBound { module: import.module, name: import.name })
        } else {
            None
        },
        None => if module.tables@.len() > 0 && (module.tables@[0].limits.max matches Some(m)
            && module.tables@[0].limits.min > m) {
            Some(RuntimeError::ControlInvariant("validated defined table has inconsistent limits"))
        } else {
            None
        },
    }
}

/// The first check of instantiation that fails, in the order they are made: the control
/// maps, the memory, the table, the data segments, the element segments. The memory and
/// table that instantiation creates are allocated where their checks stand;
/// `memory_allocated` and `table_allocated` say whether those allocations succeed.
pub open spec fn instantiation_error(
    module: Module,
    imported_memory: Option<LinearMemory>,
    imported_table: Option<TableHandle>,
    limits: RuntimeLimits,
    identity: u64,
    memory_allocated: bool,
    table_allocated: bool,
) -> Option<RuntimeError> {
    if maps_error(module, 0) is Some {
        maps_error(module, 0)
    } else if memory_error(module, imported_memory, limits) is Some {
        memory_error(module, imported_memory, limits)
    } else if creates_memory(module, imported_memory) && !memory_allocated {
        Some(RuntimeError::MemoryAllocationFailed { pages: module.memories@[0].limits.min })
    } else if table_error(module, imported_table, identity) is Some {
        table_error(module, imported_table, identity)
    } else if creates_table(module, imported_table) && !table_allocated {
        Some(RuntimeError::TableAllocationFailed { elements: module.tables@[0].limits.min })
    } else if data_error(len_of(memory_base(module, imported_memory)), module.data@, 0) is Some {
        data_error(len_of(memory_base(module, imported_memory)), module.data@, 0)
    } else {
        element_error(len_of(table_base(module, imported_table)), module.elements@, 0)
    }
}

/// Assembles an instance of `module` from the objects it imports, already resolved against
/// the host registry: builds the control maps, takes the imported memory or creates the
/// module's own, binds the imported table to the instance or creates the module's own,
/// places the imported globals before the defined ones, and initialises memory and table
/// from the active segments (each kind checked in full before any is written). An error is
/// the first failing check, or an allocation that the machine refused; where instantiation
/// creates no memory or table with a nonzero minimum, nothing can be refused and the error
/// is exactly the first failing check.
pub fn instantiate(
    module: Module,
    imported_memory: Option<LinearMemory>,
    imported_table: Option<TableHandle>,
    imported_globals: Vec<GlobalHandle>,
    limits: RuntimeLimits,
    identity: u64,
) -> (r: Result<Machine, RuntimeError>)
    requires
        module_ok(module),
        imported_memory matches Some(m) ==> m.wf(),
        imported_table matches Some(t) ==> t.wf() && first_import(module.imports@, false, 0) is Some,
        forall|i: int| 0 <= i < imported_globals@.len() ==> (#[trigger] imported_globals@[i]).wf(),
    ensures
        r is Ok ==> instantiation_error(module, imported_memory, imported_table, limits, identity, true, true) is None,
        r matches Err(e) ==> {
            ||| instantiation_error(module, imported_memory, imported_table, limits, identity, true, true) == Some(e)
            ||| instantiation_error(module, imported_memory, imported_table, limits, identity, false, true) == Some(e)
            ||| instantiation_error(module, imported_memory, imported_table, limits, identity, true, false) == Some(e)
        },
        (creates_memory(module, imported_memory) ==> module.memories@[0].limits.min == 0) && (creates_table(
            module,
            imported_table,
        ) ==> module.tables@[0].limits.min == 0) ==> (r matches Err(e) ==> instantiation_error(
            module,
            imported_memory,
            imported_table,
            limits,
            identity,
            true,
            true,
        ) == Some(e)),
        r matches Ok(m) ==> {
            &&& m.wf()
            &&& m.module == module
            &&& m.identity == identity
            &&& m.limits == limits
            &&& m.spec_calls().len() == 0
            &&& m.awaiting is Nothing
            &&& m.dropped_elements@ == Seq::new(module.elements@.len(), |i: int| !(module.elements@[i].mode is Passive))
            &&& m.dropped_data@ == Seq::new(module.data@.len(), |i: int| !(module.data@[i].mode is Passive))
            &&& maps_error(module, 0) is None
            &&& data_error(len_of(memory_base(module, imported_memory)), module.data@, 0) is None
            &&& match memory_base(module, imported_memory) {
                Some(b) => m.memory matches Some(mm) && mm@ == data_applied(b, module.data@, 0),
                None => m.memory is None,
            }
            &&& match table_base(module, imported_table) {
                Some(b) => m.table matches Some(t) && t.spec_owner() == Some(identity) && t@ == elements_applied(
                    b,
                    module.elements@,
                    identity,
                    0,
                ),
                None => m.table is None,
            }
            &&& m.globals@.len() == imported_globals@.len() + module.globals@.len()
            &&& forall|i: int| 0 <= i < imported_globals@.len() ==> #[trigger] m.globals@[i] == imported_globals@[i]
            &&& forall|i: int|
                0 <= i < module.globals@.len() ==> {
                    &&& (#[trigger] m.globals@[imported_globals@.len() + i]).spec_value() == spec_value_from_constant(
                        module.globals@[i].init,
                    )
                    &&& m.globals@[imported_globals@.len() + i].spec_mutable() == module.globals@[i].ty.mutable
                }
        },
{
    let control_maps = build_control_maps(&module)?;
    let mut memory = match imported_memory {
        Some(m) => Some(m),
        None => if module.memories.len() > 0 {
            let memory_type = module.memories[0];
            Some(LinearMemory::new(memory_type.limits.min, memory_type.limits.max, limits.max_memory_pages)?)
        } else {
            None
        },
    };
    assert(memory matches Some(mm) ==> mm.wf());
    assert(len_of(memory_base(module, imported_memory)) == crate::setup::mem_len_of(memory));
    let ghost mem0 = memory;
    let mut table = match imported_table {
        Some(mut t) => {
            let ghost t_before = t;
            assert(imported_table == Some(t_before));
            let k = first_table_import(&module).unwrap();
            let bound = bind_imported_table(&module.imports[k], &mut t, identity);
            if bound.is_err() {
                assert(table_error(module, imported_table, identity) == Some(bound->Err_0));
                return Err(bound.unwrap_err());
            }
            Some(t)
        },
        None => if module.tables.len() > 0 {
            Some(create_defined_table(module.tables[0], identity)?)
        } else {
            None
        },
    };
    let defined = defined_globals(module.globals.as_slice());
    let mut globals = imported_globals;
    let ghost imported = globals@;
    let mut defined = defined;
    let ghost defined_view = defined@;
    globals.append(&mut defined);
    initialize_data_segments(&mut memory, module.data.as_slice())?;
    initialize_element_segments(&mut table, module.elements.as_slice(), identity)?;
    proof {
        assert forall|i: int| 0 <= i < globals@.len() implies (#[trigger] globals@[i]).wf() by {
            if i < imported.len() {
                assert(globals@[i] == imported[i]);
            } else {
                assert(globals@[i] == defined_view[i - imported.len()]);
            }
        }
        assert forall|i: int| 0 <= i < module.globals@.len() implies {
            &&& (#[trigger] globals@[imported.len() + i]).spec_value() == spec_value_from_constant(
                module.globals@[i].init,
            )
            &&& globals@[imported.len() + i].spec_mutable() == module.globals@[i].ty.mutable
        } by {
            assert(globals@[imported.len() + i] == defined_view[i]);
        }
    }
    Ok(Machine::new(module, control_maps, memory, table, globals, identity, limits))
}

} // verus!
