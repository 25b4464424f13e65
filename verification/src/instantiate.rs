//! Resolving a module's imports against what a host registered, and the limits an
//! embedder puts on execution.
use vstd::prelude::*;
use crate::host::{HostFunctionEntry, HostGlobalEntry, HostMemoryEntry, HostRegistry, HostTableEntry};
use crate::memory::MAX_MEMORY_PAGES;
use crate::runtime_error::RuntimeError;
use crate::types::{Constant, FuncType, Import, ImportDesc, Module, ValueType};
use crate::value::{Value, same_types};

verus! {

/// The deepest nesting of calls that the interpreter allows.
pub const MAX_CALL_DEPTH: usize = 32;

/// What an embedder allows one instance to use.
#[derive(Debug, Clone, Copy, PartialEq, Eq, Structural)]
pub struct RuntimeLimits {
    pub max_call_depth: usize,
    pub max_memory_pages: u32,
    /// Optional instruction budget reset for each exported invocation.
    pub fuel: Option<u64>,
    /// Optional number of host calls permitted per exported invocation.
    pub max_host_calls: Option<u64>,
}

impl Default for RuntimeLimits {
    fn default() -> (r: RuntimeLimits)
        ensures
            r == (RuntimeLimits {
                max_call_depth: MAX_CALL_DEPTH,
                max_memory_pages: MAX_MEMORY_PAGES,
                fuel: None,
                max_host_calls: None,
            }),
    {
        RuntimeLimits {
            max_call_depth: MAX_CALL_DEPTH,
            max_memory_pages: MAX_MEMORY_PAGES,
            fuel: None,
            max_host_calls: None,
        }
    }
}

/// The value a constant initializer denotes.
pub open spec fn spec_value_from_constant(c: Constant) -> Value {
    match c {
        Constant::I32(v) => Value::I32(v),
        Constant::I64(v) => Value::I64(v),
        Constant::F32(b) => Value::F32(b),
        Constant::F64(b) => Value::F64(b),
    }
}

pub fn value_from_constant(c: Constant) -> (v: Value)
    ensures
        v == spec_value_from_constant(c),
        v.spec_value_type() == c.spec_value_type(),
{
    match c {
        Constant::I32(v) => Value::I32(v),
        Constant::I64(v) => Value::I64(v),
        Constant::F32(b) => Value::F32(b),
        Constant::F64(b) => Value::F64(b),
    }
}

/// The entry registered under the import's name, if any (names are distinct in a
/// well-formed registry, so there is at most one).
pub open spec fn has_function(hosts: HostRegistry, module: Seq<char>, name: Seq<char>, i: int) -> bool {
    0 <= i < hosts.functions@.len() && hosts.functions@[i].module@ == module && hosts.functions@[i].name@ == name
}

pub open spec fn lookup_function(hosts: HostRegistry, module: Seq<char>, name: Seq<char>) -> Option<HostFunctionEntry> {
    if exists|i: int| has_function(hosts, module, name, i) {
        Some(hosts.functions@[choose|i: int| has_function(hosts, module, name, i)])
    } else {
        None
    }
}

pub open spec fn has_global(hosts: HostRegistry, module: Seq<char>, name: Seq<char>, i: int) -> bool {
    0 <= i < hosts.globals@.len() && hosts.globals@[i].module@ == module && hosts.globals@[i].name@ == name
}

pub open spec fn lookup_global(hosts: HostRegistry, module: Seq<char>, name: Seq<char>) -> Option<HostGlobalEntry> {
    if exists|i: int| has_global(hosts, module, name, i) {
        Some(hosts.globals@[choose|i: int| has_global(hosts, module, name, i)])
    } else {
        None
    }
}

pub open spec fn has_table(hosts: HostRegistry, module: Seq<char>, name: Seq<char>, i: int) -> bool {
    0 <= i < hosts.tables@.len() && hosts.tables@[i].module@ == module && hosts.tables@[i].name@ == name
}

pub open spec fn lookup_table(hosts: HostRegistry, module: Seq<char>, name: Seq<char>) -> Option<HostTableEntry> {
    if exists|i: int| has_table(hosts, module, name, i) {
        Some(hosts.tables@[choose|i: int| has_table(hosts, module, name, i)])
    } else {
        None
    }
}

pub open spec fn has_memory(hosts: HostRegistry, module: Seq<char>, name: Seq<char>, i: int) -> bool {
    0 <= i < hosts.memories@.len() && hosts.memories@[i].module@ == module && hosts.memories@[i].name@ == name
}

pub open spec fn lookup_memory(hosts: HostRegistry, module: Seq<char>, name: Seq<char>) -> Option<HostMemoryEntry> {
    if exists|i: int| has_memory(hosts, module, name, i) {
        Some(hosts.memories@[choose|i: int| has_memory(hosts, module, name, i)])
    } else {
        None
    }
}

/// Every function import names a type of the module.
pub open spec fn imports_well_typed(module: Module) -> bool {
    forall|i: int|
        0 <= i < module.imports@.len() ==> (#[trigger] module.imports@[i].desc matches ImportDesc::Function(t)
            ==> t < module.types@.len())
}

/// Whether every function import names an existing type.
pub fn check_imports(module: &Module) -> (r: bool)
    ensures
        r == imports_well_typed(*module),
{
    let mut i: usize = 0;
    while i < module.imports.len()
        invariant
            i <= module.imports@.len(),
            forall|k: int| 0 <= k < i ==> (#[trigger] module.imports@[k].desc matches ImportDesc::Function(t)
                ==> t < module.types@.len()),
        decreases module.imports@.len() - i,
    {
        if let ImportDesc::Function(t) = module.imports[i].desc {
            if t as usize >= module.types.len() {
                return false;
            }
        }
        i = i + 1;
    }
    true
}

/// Whether an object with limits `actual_minimum`/`actual_maximum` can stand where
/// `expected_minimum`/`expected_maximum` are declared: at least as large, and bounded
/// at least as tightly.
pub open spec fn limits_match(
    expected_minimum: u32,
    expected_maximum: Option<u32>,
    actual_minimum: u32,
    actual_maximum: Option<u32>,
) -> bool {
    &&& actual_minimum >= expected_minimum
    &&& match expected_maximum {
        None => true,
        Some(e) => actual_maximum matches Some(a) && a <= e,
    }
}

fn limits_match_exec(
    expected_minimum: u32,
    expected_maximum: Option<u32>,
    actual_minimum: u32,
    actual_maximum: Option<u32>,
) -> (b: bool)
    ensures
        b == limits_match(expected_minimum, expected_maximum, actual_minimum, actual_maximum),
{
    let maximum_matches = match expected_maximum {
        None => true,
        Some(expected) => match actual_maximum {
            Some(actual) => actual <= expected,
            None => false,
        },
    };
    actual_minimum >= expected_minimum && maximum_matches
}

/// Checks a host memory's limits against the imported memory type.
pub fn validate_memory_limits(
    import: &Import,
    expected_minimum: u32,
    expected_maximum: Option<u32>,
    memory: &HostMemoryEntry,
) -> (r: Result<(), RuntimeError>)
    ensures
        r == spec_memory_limits(*import, expected_minimum, expected_maximum, *memory),
{
    if limits_match_exec(expected_minimum, expected_maximum, memory.minimum, memory.maximum) {
        return Ok(());
    }
    Err(
        RuntimeError::HostMemoryLimitsMismatch {
            module: import.module.clone(),
            name: import.name.clone(),
            expected_minimum,
            expected_maximum,
            actual_minimum: memory.minimum,
            actual_maximum: memory.maximum,
        },
    )
}

pub open spec fn spec_memory_limits(
    import: Import,
    expected_minimum: u32,
    expected_maximum: Option<u32>,
    memory: HostMemoryEntry,
) -> Result<(), RuntimeError> {
    if limits_match(expected_minimum, expected_maximum, memory.minimum, memory.maximum) {
        Ok(())
    } else {
        Err(
            RuntimeError::HostMemoryLimitsMismatch {
                module: import.module,
                name: import.name,
                expected_minimum,
                expected_maximum,
                actual_minimum: memory.minimum,
                actual_maximum: memory.maximum,
            },
        )
    }
}

/// Checks a host table's limits against the imported table type.
pub fn validate_table_limits(
    import: &Import,
    expected_minimum: u32,
    expected_maximum: Option<u32>,
    table: &HostTableEntry,
) -> (r: Result<(), RuntimeError>)
    ensures
        r == spec_table_limits(*import, expected_minimum, expected_maximum, *table),
{
    if limits_match_exec(expected_minimum, expected_maximum, table.length, table.maximum) {
        return Ok(());
    }
    Err(
        RuntimeError::HostTableLimitsMismatch {
            module: import.module.clone(),
            name: import.name.clone(),
            expected_minimum,
            expected_maximum,
            actual_minimum: table.length,
            actual_maximum: table.maximum,
        },
    )
}

pub open spec fn spec_table_limits(
    import: Import,
    expected_minimum: u32,
    expected_maximum: Option<u32>,
    table: HostTableEntry,
) -> Result<(), RuntimeError> {
    if limits_match(expected_minimum, expected_maximum, table.length, table.maximum) {
        Ok(())
    } else {
        Err(
            RuntimeError::HostTableLimitsMismatch {
                module: import.module,
                name: import.name,
                expected_minimum,
                expected_maximum,
                actual_minimum: table.length,
                actual_maximum: table.maximum,
            },
        )
    }
}

/// A host memory can stand for an imported memory exactly when its minimum is at least the
/// declared minimum and, where a maximum is declared, it has a maximum no larger; otherwise
/// the import is refused with both sets of limits.
pub proof fn law_memory_limits_accept(
    import: Import,
    expected_minimum: u32,
    expected_maximum: Option<u32>,
    memory: HostMemoryEntry,
)
    ensures
        spec_memory_limits(import, expected_minimum, expected_maximum, memory) is Ok <==> {
            &&& memory.minimum >= expected_minimum
            &&& expected_maximum matches Some(e) ==> (memory.maximum matches Some(a) && a <= e)
        },
        spec_memory_limits(import, expected_minimum, expected_maximum, memory) matches Err(x) ==> x
            == (RuntimeError::HostMemoryLimitsMismatch {
            module: import.module,
            name: import.name,
            expected_minimum,
            expected_maximum,
            actual_minimum: memory.minimum,
            actual_maximum: memory.maximum,
        }),
{
}

/// A host memory accepted for an import stays accepted when it has a larger minimum, and
/// a host memory whose limits are exactly the declared ones is accepted.
pub proof fn law_memory_limits_monotone(
    import: Import,
    expected_minimum: u32,
    expected_maximum: Option<u32>,
    memory: HostMemoryEntry,
    larger: HostMemoryEntry,
)
    requires
        spec_memory_limits(import, expected_minimum, expected_maximum, memory) is Ok,
        larger.minimum >= memory.minimum,
        larger.maximum == memory.maximum,
    ensures
        spec_memory_limits(import, expected_minimum, expected_maximum, larger) is Ok,
        spec_memory_limits(
            import,
            expected_minimum,
            expected_maximum,
            HostMemoryEntry { minimum: expected_minimum, maximum: expected_maximum, ..memory },
        ) is Ok,
{
}

/// A host table can stand for an imported table exactly when its length is at least the
/// declared minimum and, where a maximum is declared, it has a maximum no larger; otherwise
/// the import is refused with both sets of limits.
pub proof fn law_table_limits_accept(
    import: Import,
    expected_minimum: u32,
    expected_maximum: Option<u32>,
    table: HostTableEntry,
)
    ensures
        spec_table_limits(import, expected_minimum, expected_maximum, table) is Ok <==> {
            &&& table.length >= expected_minimum
            &&& expected_maximum matches Some(e) ==> (table.maximum matches Some(a) && a <= e)
        },
        spec_table_limits(import, expected_minimum, expected_maximum, table) matches Err(x) ==> x
            == (RuntimeError::HostTableLimitsMismatch {
            module: import.module,
            name: import.name,
            expected_minimum,
            expected_maximum,
            actual_minimum: table.length,
            actual_maximum: table.maximum,
        }),
{
}

/// A host table accepted for an import stays accepted when it is longer, and a host table
/// whose limits are exactly the declared ones is accepted.
pub proof fn law_table_limits_monotone(
    import: Import,
    expected_minimum: u32,
    expected_maximum: Option<u32>,
    table: HostTableEntry,
    longer: HostTableEntry,
)
    requires
        spec_table_limits(import, expected_minimum, expected_maximum, table) is Ok,
        longer.length >= table.length,
        longer.maximum == table.maximum,
    ensures
        spec_table_limits(import, expected_minimum, expected_maximum, longer) is Ok,
        spec_table_limits(
            import,
            expected_minimum,
            expected_maximum,
            HostTableEntry { length: expected_minimum, maximum: expected_maximum, ..table },
        ) is Ok,
{
}

pub open spec fn min_u32(a: u32, b: u32) -> u32 {
    if a < b { a } else { b }
}

/// A host memory must stay, now and however far it may grow, within the runtime's page cap.
pub open spec fn spec_memory_runtime_limit(import: Import, memory: HostMemoryEntry, runtime_limit: u32) -> Result<
    (),
    RuntimeError,
> {
    let runtime_limit = min_u32(runtime_limit, MAX_MEMORY_PAGES);
    let memory_limit = match memory.maximum {
        Some(m) => m,
        None => MAX_MEMORY_PAGES,
    };
    if memory.size_pages <= runtime_limit && memory_limit <= runtime_limit {
        Ok(())
    } else {
        Err(
            RuntimeError::HostMemoryRuntimeLimitMismatch {
                module: import.module,
                name: import.name,
                memory_limit,
                runtime_limit,
            },
        )
    }
}

/// A host memory passes the runtime's page cap exactly when its current size and the size
/// it may grow to (its maximum, or the format's limit without one) are both within the cap
/// (itself no larger than the format's limit); a memory that passes one cap passes every
/// larger one, and a memory no larger in either respect passes too.
pub proof fn law_memory_runtime_limit(
    import: Import,
    memory: HostMemoryEntry,
    runtime_limit: u32,
    smaller: HostMemoryEntry,
    larger_limit: u32,
)
    ensures
        spec_memory_runtime_limit(import, memory, runtime_limit) is Ok <==> {
            &&& memory.size_pages <= runtime_limit && memory.size_pages <= MAX_MEMORY_PAGES
            &&& match memory.maximum {
                Some(m) => m <= runtime_limit && m <= MAX_MEMORY_PAGES,
                None => MAX_MEMORY_PAGES <= runtime_limit,
            }
        },
        spec_memory_runtime_limit(import, memory, runtime_limit) is Ok && larger_limit >= runtime_limit
            ==> spec_memory_runtime_limit(import, memory, larger_limit) is Ok,
        spec_memory_runtime_limit(import, memory, runtime_limit) is Ok && smaller.size_pages <= memory.size_pages
            && (smaller.maximum matches Some(s) && s <= match memory.maximum {
                Some(m) => m,
                None => MAX_MEMORY_PAGES,
            }) ==> spec_memory_runtime_limit(
            import,
            smaller,
            runtime_limit,
        ) is Ok,
{
}

pub fn validate_memory_runtime_limit(import: &Import, memory: &HostMemoryEntry, runtime_limit: u32) -> (r: Result<
    (),
    RuntimeError,
>)
    ensures
        r == spec_memory_runtime_limit(*import, *memory, runtime_limit),
{
    let runtime_limit = if runtime_limit < MAX_MEMORY_PAGES { runtime_limit } else { MAX_MEMORY_PAGES };
    let memory_limit = match memory.maximum {
        Some(m) => m,
        None => MAX_MEMORY_PAGES,
    };
    if memory.size_pages <= runtime_limit && memory_limit <= runtime_limit {
        return Ok(());
    }
    Err(
        RuntimeError::HostMemoryRuntimeLimitMismatch {
            module: import.module.clone(),
            name: import.name.clone(),
            memory_limit,
            runtime_limit,
        },
    )
}

/// The binding check for one import of the first kind: a function import needs a host
/// function of exactly its signature.
pub open spec fn function_binding(module: Module, hosts: HostRegistry, import: Import) -> Option<RuntimeError> {
    match import.desc {
        ImportDesc::Function(t) => match lookup_function(hosts, import.module@, import.name@) {
            None => Some(RuntimeError::UnresolvedImport { module: import.module, name: import.name }),
            Some(h) => {
                let declared = module.types@[t as int];
                if h.params@ != declared.params@ || h.results@ != declared.results@ {
                    Some(RuntimeError::HostSignatureMismatch { module: import.module, name: import.name })
                } else {
                    None
                }
            },
        },
        _ => None,
    }
}

/// A table import needs a host table whose limits fit.
pub open spec fn table_binding(hosts: HostRegistry, import: Import) -> Option<RuntimeError> {
    match import.desc {
        ImportDesc::Table(tt) => match lookup_table(hosts, import.module@, import.name@) {
            None => Some(RuntimeError::UnresolvedTableImport { module: import.module, name: import.name }),
            Some(t) => match spec_table_limits(import, tt.limits.min, tt.limits.max, t) {
                Ok(_) => None,
                Err(e) => Some(e),
            },
        },
        _ => None,
    }
}

/// A memory import needs a host memory whose limits fit and that stays within the
/// runtime's page cap.
pub open spec fn memory_binding(hosts: HostRegistry, limits: RuntimeLimits, import: Import) -> Option<RuntimeError> {
    match import.desc {
        ImportDesc::Memory(mt) => match lookup_memory(hosts, import.module@, import.name@) {
            None => Some(RuntimeError::UnresolvedMemoryImport { module: import.module, name: import.name }),
            Some(m) => match spec_memory_limits(import, mt.limits.min, mt.limits.max, m) {
                Err(e) => Some(e),
                Ok(_) => match spec_memory_runtime_limit(import, m, limits.max_memory_pages) {
                    Err(e) => Some(e),
                    Ok(_) => None,
                },
            },
        },
        _ => None,
    }
}

/// A global import needs a host global of the same type and mutability.
pub open spec fn global_binding(hosts: HostRegistry, import: Import) -> Option<RuntimeError> {
    match import.desc {
        ImportDesc::Global(gt) => match lookup_global(hosts, import.module@, import.name@) {
            None => Some(RuntimeError::UnresolvedGlobalImport { module: import.module, name: import.name }),
            Some(g) => if g.value_type != gt.value_type {
                Some(
                    RuntimeError::HostGlobalTypeMismatch {
                        module: import.module,
                        name: import.name,
                        expected: gt.value_type,
                        actual: g.value_type,
                    },
                )
            } else if g.mutable != gt.mutable {
                Some(
                    RuntimeError::HostGlobalMutabilityMismatch {
                        module: import.module,
                        name: import.name,
                        expected: gt.mutable,
                        actual: g.mutable,
                    },
                )
            } else {
                None
            },
        },
        _ => None,
    }
}

/// The check of one import in phase `phase`: functions, tables, memories, then globals.
pub open spec fn binding_check(phase: int, module: Module, hosts: HostRegistry, limits: RuntimeLimits, import: Import) -> Option<
    RuntimeError,
> {
    if phase == 0 {
        function_binding(module, hosts, import)
    } else if phase == 1 {
        table_binding(hosts, import)
    } else if phase == 2 {
        memory_binding(hosts, limits, import)
    } else {
        global_binding(hosts, import)
    }
}

/// The error of the first import, from position `i` on, that phase `phase` rejects.
pub open spec fn first_error(phase: int, module: Module, hosts: HostRegistry, limits: RuntimeLimits, i: int) -> Option<
    RuntimeError,
>
    decreases module.imports@.len() - i,
{
    if i >= module.imports@.len() || i < 0 {
        None
    } else {
        match binding_check(phase, module, hosts, limits, module.imports@[i]) {
            Some(e) => Some(e),
            None => first_error(phase, module, hosts, limits, i + 1),
        }
    }
}

/// Function imports are checked first, then tables, then memories, then globals, each
/// kind in import order; the first failure is the answer.
pub open spec fn spec_validate_host_bindings(module: Module, hosts: HostRegistry, limits: RuntimeLimits) -> Result<
    (),
    RuntimeError,
> {
    match first_error(0, module, hosts, limits, 0) {
        Some(e) => Err(e),
        None => match first_error(1, module, hosts, limits, 0) {
            Some(e) => Err(e),
            None => match first_error(2, module, hosts, limits, 0) {
                Some(e) => Err(e),
                None => match first_error(3, module, hosts, limits, 0) {
                    Some(e) => Err(e),
                    None => Ok(()),
                },
            },
        },
    }
}

pub proof fn lemma_lookup_function(hosts: HostRegistry, i: int, module: Seq<char>, name: Seq<char>)
    requires
        hosts.wf(),
        0 <= i < hosts.functions@.len(),
        hosts.functions@[i].module@ == module,
        hosts.functions@[i].name@ == name,
    ensures
        lookup_function(hosts, module, name) == Some(hosts.functions@[i]),
{
    assert(has_function(hosts, module, name, i));
    let j = choose|j: int| has_function(hosts, module, name, j);
    if i != j {
        let keys = crate::host::function_keys(hosts.functions@);
        assert(keys[i] == (module, name));
        assert(keys[j] == (module, name));
        if i < j {
            assert(keys[i] != keys[j]);
        } else {
            assert(keys[j] != keys[i]);
        }
    }
}

pub proof fn lemma_lookup_table(hosts: HostRegistry, i: int, module: Seq<char>, name: Seq<char>)
    requires
        hosts.wf(),
        0 <= i < hosts.tables@.len(),
        hosts.tables@[i].module@ == module,
        hosts.tables@[i].name@ == name,
    ensures
        lookup_table(hosts, module, name) == Some(hosts.tables@[i]),
{
    assert(has_table(hosts, module, name, i));
    let j = choose|j: int| has_table(hosts, module, name, j);
    if i != j {
        let keys = crate::host::table_keys(hosts.tables@);
        assert(keys[i] == (module, name));
        assert(keys[j] == (module, name));
        if i < j {
            assert(keys[i] != keys[j]);
        } else {
            assert(keys[j] != keys[i]);
        }
    }
}

pub proof fn lemma_lookup_memory(hosts: HostRegistry, i: int, module: Seq<char>, name: Seq<char>)
    requires
        hosts.wf(),
        0 <= i < hosts.memories@.len(),
        hosts.memories@[i].module@ == module,
        hosts.memories@[i].name@ == name,
    ensures
        lookup_memory(hosts, module, name) == Some(hosts.memories@[i]),
{
    assert(has_memory(hosts, module, name, i));
    let j = choose|j: int| has_memory(hosts, module, name, j);
    if i != j {
        let keys = crate::host::memory_keys(hosts.memories@);
        assert(keys[i] == (module, name));
        assert(keys[j] == (module, name));
        if i < j {
            assert(keys[i] != keys[j]);
        } else {
            assert(keys[j] != keys[i]);
        }
    }
}

pub proof fn lemma_lookup_global(hosts: HostRegistry, i: int, module: Seq<char>, name: Seq<char>)
    requires
        hosts.wf(),
        0 <= i < hosts.globals@.len(),
        hosts.globals@[i].module@ == module,
        hosts.globals@[i].name@ == name,
    ensures
        lookup_global(hosts, module, name) == Some(hosts.globals@[i]),
{
    assert(has_global(hosts, module, name, i));
    let j = choose|j: int| has_global(hosts, module, name, j);
    if i != j {
        let keys = crate::host::global_keys(hosts.globals@);
        assert(keys[i] == (module, name));
        assert(keys[j] == (module, name));
        if i < j {
            assert(keys[i] != keys[j]);
        } else {
            assert(keys[j] != keys[i]);
        }
    }
}

/// Checks, before anything is allocated, that the host provides every import with a
/// matching object.
pub fn validate_host_bindings(module: &Module, hosts: &HostRegistry, limits: RuntimeLimits) -> (r: Result<
    (),
    RuntimeError,
>)
    requires
        hosts.wf(),
        imports_well_typed(*module),
    ensures
        r == spec_validate_host_bindings(*module, *hosts, limits),
{
    let ghost imports = module.imports@;
    let mut i: usize = 0;
    while i < module.imports.len()
        invariant
            hosts.wf(),
            imports_well_typed(*module),
            imports == module.imports@,
            i <= imports.len(),
            first_error(0, *module, *hosts, limits, 0) == first_error(0, *module, *hosts, limits, i as int),
        decreases imports.len() - i,
    {
        let import = &module.imports[i];
        if let ImportDesc::Function(type_index) = import.desc {
            match hosts.find_function(&import.module, &import.name) {
                None => {
                    return Err(RuntimeError::UnresolvedImport {
                        module: import.module.clone(),
                        name: import.name.clone(),
                    });
                },
                Some(h) => {
                    proof {
                        lemma_lookup_function(*hosts, h as int, import.module@, import.name@);
                    }
                    let host = &hosts.functions[h];
                    let declared = &module.types[type_index as usize];
                    if !same_types(&host.params, &declared.params) || !same_types(
                        &host.results,
                        &declared.results,
                    ) {
                        return Err(RuntimeError::HostSignatureMismatch {
                            module: import.module.clone(),
                            name: import.name.clone(),
                        });
                    }
                },
            }
        }
        i = i + 1;
    }
    let mut i: usize = 0;
    while i < module.imports.len()
        invariant
            hosts.wf(),
            imports == module.imports@,
            i <= imports.len(),
            first_error(0, *module, *hosts, limits, 0) is None,
            first_error(1, *module, *hosts, limits, 0) == first_error(1, *module, *hosts, limits, i as int),
        decreases imports.len() - i,
    {
        let import = &module.imports[i];
        if let ImportDesc::Table(table_type) = import.desc {
            match hosts.find_table(&import.module, &import.name) {
                None => {
                    return Err(RuntimeError::UnresolvedTableImport {
                        module: import.module.clone(),
                        name: import.name.clone(),
                    });
                },
                Some(t) => {
                    proof {
                        lemma_lookup_table(*hosts, t as int, import.module@, import.name@);
                    }
                    validate_table_limits(
                        import,
                        table_type.limits.min,
                        table_type.limits.max,
                        &hosts.tables[t],
                    )?;
                },
            }
        }
        i = i + 1;
    }
    let mut i: usize = 0;
    while i < module.imports.len()
        invariant
            hosts.wf(),
            imports == module.imports@,
            i <= imports.len(),
            first_error(0, *module, *hosts, limits, 0) is None,
            first_error(1, *module, *hosts, limits, 0) is None,
            first_error(2, *module, *hosts, limits, 0) == first_error(2, *module, *hosts, limits, i as int),
        decreases imports.len() - i,
    {
        let import = &module.imports[i];
        if let ImportDesc::Memory(memory_type) = import.desc {
            match hosts.find_memory(&import.module, &import.name) {
                None => {
                    return Err(RuntimeError::UnresolvedMemoryImport {
                        module: import.module.clone(),
                        name: import.name.clone(),
                    });
                },
                Some(m) => {
                    proof {
                        lemma_lookup_memory(*hosts, m as int, import.module@, import.name@);
                    }
                    validate_memory_limits(
                        import,
                        memory_type.limits.min,
                        memory_type.limits.max,
                        &hosts.memories[m],
                    )?;
                    validate_memory_runtime_limit(import, &hosts.memories[m], limits.max_memory_pages)?;
                },
            }
        }
        i = i + 1;
    }
    let mut i: usize = 0;
    while i < module.imports.len()
        invariant
            hosts.wf(),
            imports == module.imports@,
            i <= imports.len(),
            first_error(0, *module, *hosts, limits, 0) is None,
            first_error(1, *module, *hosts, limits, 0) is None,
            first_error(2, *module, *hosts, limits, 0) is None,
            first_error(3, *module, *hosts, limits, 0) == first_error(3, *module, *hosts, limits, i as int),
        decreases imports.len() - i,
    {
        let import = &module.imports[i];
        if let ImportDesc::Global(global_type) = import.desc {
            match hosts.find_global(&import.module, &import.name) {
                None => {
                    return Err(RuntimeError::UnresolvedGlobalImport {
                        module: import.module.clone(),
                        name: import.name.clone(),
                    });
                },
                Some(g) => {
                    proof {
                        lemma_lookup_global(*hosts, g as int, import.module@, import.name@);
                    }
                    let global = &hosts.globals[g];
                    if global.value_type != global_type.value_type {
                        return Err(RuntimeError::HostGlobalTypeMismatch {
                            module: import.module.clone(),
                            name: import.name.clone(),
                            expected: global_type.value_type,
                            actual: global.value_type,
                        });
                    }
                    if global.mutable != global_type.mutable {
                        return Err(RuntimeError::HostGlobalMutabilityMismatch {
                            module: import.module.clone(),
                            name: import.name.clone(),
                            expected: global_type.mutable,
                            actual: global.mutable,
                        });
                    }
                },
            }
        }
        i = i + 1;
    }
    Ok(())
}

} // verus!
