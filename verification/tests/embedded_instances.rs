//! Whole-instance behaviour, driven through a small embedding of the machine: shared host
//! tables, memories and globals, host callbacks, and a float unit for the instructions that
//! the machine hands out.
use std::cell::{Cell, RefCell};
use std::rc::Rc;

use mini_wasm::host::{
    GlobalHandle as LibGlobal, GlobalHandleError, HostCapabilities, HostContext, HostRegistry as Descriptors,
    HostRegistryError, MemoryHandle as LibMemory, MemoryHandleError, TableHandle as LibTable, TableHandleError,
};
use mini_wasm::host::FunctionRef;
use mini_wasm::instantiate::{check_imports, validate_host_bindings, RuntimeLimits};
use mini_wasm::interp::{check_module, Machine, Outcome};
use mini_wasm::memory::LinearMemory;
use mini_wasm::runtime_error::{HostError, RuntimeError};
use mini_wasm::setup::{imported_global_entries, imported_memory_entry, imported_table_entry, instantiate};
use mini_wasm::value::Value;
use mini_wasm::{
    parse_module, ParseError, Constant, DataMode, DataSegment, ElementMode, Export, ExportKind, FuncType, FunctionBody, Import,
    ImportDesc, Limits, MemoryType, Module, ValueType,
};

#[derive(Debug, Clone)]
struct GlobalHandle(Rc<RefCell<LibGlobal>>);

impl GlobalHandle {
    fn mutable(value: Value) -> Self {
        GlobalHandle(Rc::new(RefCell::new(LibGlobal::mutable(value))))
    }

    fn get(&self) -> Value {
        self.0.borrow().get()
    }

    fn set(&self, value: Value) -> Result<(), GlobalHandleError> {
        self.0.borrow_mut().set(value)
    }
}

#[derive(Debug, Clone)]
struct TableHandle(Rc<RefCell<LibTable>>);

impl TableHandle {
    fn new(minimum: u32, maximum: Option<u32>) -> Result<Self, TableHandleError> {
        Ok(TableHandle(Rc::new(RefCell::new(LibTable::new(minimum, maximum)?))))
    }

    fn len(&self) -> u32 {
        self.0.borrow().len()
    }

    fn get(&self, index: u32) -> Result<Option<FunctionRef>, TableHandleError> {
        self.0.borrow().get(index)
    }
}

#[derive(Debug, Clone)]
struct MemoryHandle(Rc<RefCell<LibMemory>>);

impl MemoryHandle {
    fn new(minimum: u32, maximum: Option<u32>) -> Result<Self, MemoryHandleError> {
        Ok(MemoryHandle(Rc::new(RefCell::new(LibMemory::new(minimum, maximum)?))))
    }

    fn size_pages(&self) -> u32 {
        self.0.borrow().size_pages()
    }

    fn read(&self, address: u32, length: usize) -> Result<Vec<u8>, MemoryHandleError> {
        self.0.borrow().read(address, length)
    }

    fn write(&self, address: u32, bytes: &[u8]) -> Result<(), MemoryHandleError> {
        self.0.borrow_mut().write(address, bytes)
    }
}

type Callback = Box<dyn FnMut(&mut HostContext, &[Value]) -> Result<Vec<Value>, HostError>>;

struct HostRegistry {
    descriptors: Descriptors,
    callbacks: Vec<Callback>,
    globals: Vec<GlobalHandle>,
    tables: Vec<TableHandle>,
    memories: Vec<MemoryHandle>,
}

impl HostRegistry {
    fn new() -> Self {
        HostRegistry {
            descriptors: Descriptors::new(),
            callbacks: Vec::new(),
            globals: Vec::new(),
            tables: Vec::new(),
            memories: Vec::new(),
        }
    }

    fn register<F>(
        &mut self,
        module: &str,
        name: &str,
        params: Vec<ValueType>,
        results: Vec<ValueType>,
        capabilities: HostCapabilities,
        mut callback: F,
    ) -> Result<(), HostRegistryError>
    where
        F: FnMut(&mut HostContext, &[Value]) -> Result<Option<Value>, HostError> + 'static,
    {
        self.descriptors
            .register(module.to_string(), name.to_string(), params, results, capabilities)?;
        self.callbacks
            .push(Box::new(move |context, args| callback(context, args).map(|r| r.into_iter().collect())));
        Ok(())
    }

    fn register_values<F>(
        &mut self,
        module: &str,
        name: &str,
        params: Vec<ValueType>,
        results: Vec<ValueType>,
        capabilities: HostCapabilities,
        callback: F,
    ) -> Result<(), HostRegistryError>
    where
        F: FnMut(&mut HostContext, &[Value]) -> Result<Vec<Value>, HostError> + 'static,
    {
        self.descriptors
            .register_values(module.to_string(), name.to_string(), params, results, capabilities)?;
        self.callbacks.push(Box::new(callback));
        Ok(())
    }

    fn register_immutable_global(&mut self, module: &str, name: &str, value: Value) -> Result<(), HostRegistryError> {
        let global = GlobalHandle(Rc::new(RefCell::new(LibGlobal::immutable(value))));
        self.register_global(module, name, global)
    }

    fn register_global(&mut self, module: &str, name: &str, global: GlobalHandle) -> Result<(), HostRegistryError> {
        self.descriptors
            .register_global(module.to_string(), name.to_string(), &global.0.borrow())?;
        self.globals.push(global);
        Ok(())
    }

    fn register_table(&mut self, module: &str, name: &str, table: TableHandle) -> Result<(), HostRegistryError> {
        self.descriptors
            .register_table(module.to_string(), name.to_string(), &table.0.borrow())?;
        self.tables.push(table);
        Ok(())
    }

    fn register_memory(&mut self, module: &str, name: &str, memory: MemoryHandle) -> Result<(), HostRegistryError> {
        self.descriptors
            .register_memory(module.to_string(), name.to_string(), &memory.0.borrow())?;
        self.memories.push(memory);
        Ok(())
    }

    fn refresh(&mut self) {
        for (entry, table) in self.descriptors.tables.iter_mut().zip(&self.tables) {
            entry.length = table.len();
        }
        for (entry, memory) in self.descriptors.memories.iter_mut().zip(&self.memories) {
            entry.size_pages = memory.size_pages();
        }
    }
}

struct Instance {
    machine: Machine,
    hosts: HostRegistry,
    imported_memory: Option<MemoryHandle>,
    imported_table: Option<TableHandle>,
    imported_globals: Vec<GlobalHandle>,
}

impl std::fmt::Debug for Instance {
    fn fmt(&self, f: &mut std::fmt::Formatter<'_>) -> std::fmt::Result {
        f.debug_struct("Instance").field("identity", &self.machine.identity).finish()
    }
}

impl Drop for Instance {
    fn drop(&mut self) {
        if let Some(table) = &self.imported_table {
            table.0.borrow_mut().release(self.machine.identity);
        }
    }
}

impl Instance {
    fn new(module: Module) -> Result<Self, RuntimeError> {
        Self::with_config(module, HostRegistry::new(), RuntimeLimits::default())
    }

    fn with_hosts(module: Module, hosts: HostRegistry) -> Result<Self, RuntimeError> {
        Self::with_config(module, hosts, RuntimeLimits::default())
    }

    fn with_config(module: Module, mut hosts: HostRegistry, limits: RuntimeLimits) -> Result<Self, RuntimeError> {
        assert!(check_module(&module) && check_imports(&module), "test module refers to a missing type");
        hosts.refresh();
        validate_host_bindings(&module, &hosts.descriptors, limits)?;
        let memory_entry = imported_memory_entry(&module, &hosts.descriptors, limits)?;
        let table_entry = imported_table_entry(&module, &hosts.descriptors)?;
        let global_entries = imported_global_entries(&module, &hosts.descriptors)?;
        let imported_memory = memory_entry.map(|index| hosts.memories[index].clone());
        let imported_table = table_entry.map(|index| hosts.tables[index].clone());
        let imported_globals: Vec<GlobalHandle> =
            global_entries.iter().map(|&index| hosts.globals[index].clone()).collect();
        // Each `RandomState` is keyed afresh, so its empty hash tells instances apart.
        let identity = std::hash::BuildHasher::build_hasher(&std::collections::hash_map::RandomState::new());
        let identity = std::hash::Hasher::finish(&identity);
        let machine = instantiate(
            module,
            imported_memory.as_ref().map(|memory| memory.0.borrow().memory().clone()),
            imported_table.as_ref().map(|table| table.0.borrow().clone()),
            imported_globals.iter().map(|global| global.0.borrow().clone()).collect(),
            limits,
            identity,
        )?;
        let mut instance = Instance { machine, hosts, imported_memory, imported_table, imported_globals };
        instance.publish();
        if let Some(start) = instance.machine.module.start {
            let results = instance.run(|machine| machine.invoke(start, Vec::new()))?;
            assert!(results.is_empty());
        }
        Ok(instance)
    }

    fn invoke_export(&mut self, name: &str, args: &[Value]) -> Result<Option<Value>, RuntimeError> {
        let name = name.to_string();
        let args = args.to_vec();
        let mut results = self.run(|machine| machine.invoke_export(&name, args, false))?;
        Ok(results.pop())
    }

    fn invoke_export_values(&mut self, name: &str, args: &[Value]) -> Result<Vec<Value>, RuntimeError> {
        let name = name.to_string();
        let args = args.to_vec();
        self.run(|machine| machine.invoke_export(&name, args, true))
    }

    fn memory(&self) -> Option<&LinearMemory> {
        match self.imported_memory {
            Some(_) => None,
            None => self.machine.memory.as_ref(),
        }
    }

    fn global(&self, index: u32) -> Option<Value> {
        match self.imported_globals.get(index as usize) {
            Some(global) => Some(global.get()),
            None => self.machine.global(index),
        }
    }

    fn run(
        &mut self,
        start: impl FnOnce(&mut Machine) -> Result<Outcome, RuntimeError>,
    ) -> Result<Vec<Value>, RuntimeError> {
        self.fetch();
        let result = self.drive(start);
        self.publish();
        result
    }

    fn drive(
        &mut self,
        start: impl FnOnce(&mut Machine) -> Result<Outcome, RuntimeError>,
    ) -> Result<Vec<Value>, RuntimeError> {
        let mut outcome = start(&mut self.machine)?;
        loop {
            outcome = match outcome {
                Outcome::Continue => self.machine.step()?,
                Outcome::Finished(values) => return Ok(values),
                Outcome::CallHost { module, name, args, .. } => {
                    let results = self.call_host(&module, &name, &args)?;
                    self.machine.resume_host(results)?
                }
                Outcome::Float { opcode, operands, .. } => {
                    self.machine.push_value(float_unit(opcode, &operands)?)?;
                    Outcome::Continue
                }
            };
        }
    }

    fn call_host(&mut self, module: &String, name: &String, args: &[Value]) -> Result<Vec<Value>, RuntimeError> {
        let index = self.hosts.descriptors.find_function(module, name).expect("bound host function");
        let capabilities = self.hosts.descriptors.functions[index].capabilities;
        self.publish();
        let memory = match &self.imported_memory {
            Some(shared) => Some(shared.0.borrow().memory().clone()),
            None => self.machine.memory.take(),
        };
        let mut context = HostContext::new(memory, capabilities);
        let outcome = (self.hosts.callbacks[index])(&mut context, args);
        let memory = context.into_memory();
        match &self.imported_memory {
            Some(shared) => {
                if let Some(memory) = memory {
                    shared.0.borrow_mut().replace_memory(memory);
                }
            }
            None => self.machine.memory = memory,
        }
        self.fetch();
        outcome.map_err(|error| RuntimeError::HostCallFailed { module: module.clone(), name: name.clone(), error })
    }

    fn fetch(&mut self) {
        if let Some(shared) = &self.imported_memory {
            self.machine.memory = Some(shared.0.borrow().memory().clone());
        }
        if let Some(shared) = &self.imported_table {
            self.machine.table = Some(shared.0.borrow().clone());
        }
        for (slot, shared) in self.machine.globals.iter_mut().zip(&self.imported_globals) {
            *slot = shared.0.borrow().clone();
        }
    }

    fn publish(&mut self) {
        if let (Some(shared), Some(memory)) = (&self.imported_memory, &self.machine.memory) {
            shared.0.borrow_mut().replace_memory(memory.clone());
        }
        if let (Some(shared), Some(table)) = (&self.imported_table, &self.machine.table) {
            *shared.0.borrow_mut() = table.clone();
        }
        for (slot, shared) in self.machine.globals.iter().zip(&self.imported_globals) {
            *shared.0.borrow_mut() = slot.clone();
        }
    }
}

/// The floating-point instructions these scenarios use, computed on the host's unit.
fn float_unit(opcode: u8, operands: &[Value]) -> Result<Value, RuntimeError> {
    let a = operands[0];
    let flag = |b: bool| Ok(Value::I32(b as i32));
    match opcode {
        0x5b => flag(a.as_f32() == operands[1].as_f32()),
        0x5c => flag(a.as_f32() != operands[1].as_f32()),
        0x5d => flag(a.as_f32() < operands[1].as_f32()),
        0x5e => flag(a.as_f32() > operands[1].as_f32()),
        0x5f => flag(a.as_f32() <= operands[1].as_f32()),
        0x60 => flag(a.as_f32() >= operands[1].as_f32()),
        0x61 => flag(a.as_f64() == operands[1].as_f64()),
        0x62 => flag(a.as_f64() != operands[1].as_f64()),
        0x63 => flag(a.as_f64() < operands[1].as_f64()),
        0x64 => flag(a.as_f64() > operands[1].as_f64()),
        0x65 => flag(a.as_f64() <= operands[1].as_f64()),
        0x66 => flag(a.as_f64() >= operands[1].as_f64()),
        0x92 => Ok(f32v(a.as_f32() + operands[1].as_f32())),
        0x93 => Ok(f32v(a.as_f32() - operands[1].as_f32())),
        0x94 => Ok(f32v(a.as_f32() * operands[1].as_f32())),
        0x95 => Ok(f32v(a.as_f32() / operands[1].as_f32())),
        0xa0 => Ok(f64v(a.as_f64() + operands[1].as_f64())),
        0xa1 => Ok(f64v(a.as_f64() - operands[1].as_f64())),
        0xa2 => Ok(f64v(a.as_f64() * operands[1].as_f64())),
        0xa3 => Ok(f64v(a.as_f64() / operands[1].as_f64())),
        0xa8..=0xab | 0xae..=0xb1 => {
            let x = match a {
                Value::F32(_) => a.as_f32() as f64,
                _ => a.as_f64(),
            };
            if x.is_nan() {
                return Err(RuntimeError::InvalidConversionToInteger);
            }
            let t = x.trunc();
            let (low, high) = match opcode {
                0xa8 | 0xaa => (-2147483648.0, 2147483648.0),
                0xa9 | 0xab => (0.0, 4294967296.0),
                0xae | 0xb0 => (-9223372036854775808.0, 9223372036854775808.0),
                _ => (0.0, 18446744073709551616.0),
            };
            if !(t >= low && t < high) {
                return Err(RuntimeError::IntegerOverflow);
            }
            Ok(match opcode {
                0xa8 | 0xaa => Value::I32(t as i32),
                0xa9 | 0xab => Value::I32(t as u32 as i32),
                0xae | 0xb0 => Value::I64(t as i64),
                _ => Value::I64(t as u64 as i64),
            })
        }
        0xb2 => Ok(f32v(a.as_i32() as f32)),
        0xb3 => Ok(f32v(a.as_i32() as u32 as f32)),
        0xb4 => Ok(f32v(a.as_i64() as f32)),
        0xb5 => Ok(f32v(a.as_i64() as u64 as f32)),
        0xb6 => Ok(f32v(a.as_f64() as f32)),
        0xb7 => Ok(f64v(a.as_i32() as f64)),
        0xb8 => Ok(f64v(a.as_i32() as u32 as f64)),
        0xb9 => Ok(f64v(a.as_i64() as f64)),
        0xba => Ok(f64v(a.as_i64() as u64 as f64)),
        0xbb => Ok(f64v(a.as_f32() as f64)),
        other => panic!("float instruction {other:#x} is outside these scenarios"),
    }
}

/// Reads a float operand or result as the host's floating-point type.
trait FloatView {
    fn as_f32(&self) -> f32;
    fn as_f64(&self) -> f64;
}

impl FloatView for Value {
    fn as_f32(&self) -> f32 {
        match self {
            Value::F32(bits) => f32::from_bits(*bits),
            other => panic!("expected f32, got {other:?}"),
        }
    }

    fn as_f64(&self) -> f64 {
        match self {
            Value::F64(bits) => f64::from_bits(*bits),
            other => panic!("expected f64, got {other:?}"),
        }
    }
}

fn f32v(value: f32) -> Value {
    Value::F32(value.to_bits())
}

fn f64v(value: f64) -> Value {
    Value::F64(value.to_bits())
}

// ---- Globals, indirect calls, element segments and the start function.
fn p5a_push_section(module: &mut Vec<u8>, id: u8, payload: &[u8]) {
    assert!(payload.len() < 128, "fixture helper uses one-byte lengths");
    module.push(id);
    module.push(payload.len() as u8);
    module.extend(payload);
}

fn p5a_global_counter_module(mutable: bool) -> Vec<u8> {
    let mut bytes = vec![0x00, 0x61, 0x73, 0x6d, 0x01, 0x00, 0x00, 0x00];
    p5a_push_section(&mut bytes, 1, &[0x01, 0x60, 0x00, 0x01, 0x7f]);
    p5a_push_section(&mut bytes, 3, &[0x01, 0x00]);
    p5a_push_section(
        &mut bytes,
        6,
        &[0x01, 0x7f, u8::from(mutable), 0x41, 0x07, 0x0b],
    );
    p5a_push_section(&mut bytes, 7, &[0x01, 0x03, b'r', b'u', b'n', 0x00, 0x00]);
    let body = [
        0x00, // local declarations
        0x23, 0x00, // global.get 0
        0x41, 0x01, // i32.const 1
        0x6a, // i32.add
        0x24, 0x00, // global.set 0
        0x23, 0x00, // global.get 0
        0x0b, // end
    ];
    let mut code = vec![0x01, body.len() as u8];
    code.extend(body);
    p5a_push_section(&mut bytes, 10, &code);
    bytes
}

fn p5a_indirect_module() -> Vec<u8> {
    let mut bytes = vec![0x00, 0x61, 0x73, 0x6d, 0x01, 0x00, 0x00, 0x00];
    p5a_push_section(
        &mut bytes,
        1,
        &[
            0x02, // two types
            0x60, 0x01, 0x7f, 0x01, 0x7f, // type 0: (i32) -> i32
            0x60, 0x02, 0x7f, 0x7f, 0x01, 0x7f, // type 1: (i32, i32) -> i32
        ],
    );
    p5a_push_section(&mut bytes, 3, &[0x02, 0x00, 0x01]);
    p5a_push_section(&mut bytes, 4, &[0x01, 0x70, 0x00, 0x02]);
    p5a_push_section(&mut bytes, 7, &[0x01, 0x03, b'r', b'u', b'n', 0x00, 0x01]);
    p5a_push_section(&mut bytes, 9, &[0x01, 0x00, 0x41, 0x00, 0x0b, 0x01, 0x00]);
    let target = [
        0x00, // locals
        0x20, 0x00, // local.get 0
        0x41, 0x01, // i32.const 1
        0x6a, // add
        0x0b,
    ];
    let caller = [
        0x00, // locals
        0x20, 0x00, // argument to target
        0x20, 0x01, // table element index
        0x11, 0x00, 0x00, // call_indirect type 0 table 0
        0x0b,
    ];
    let mut code = vec![0x02, target.len() as u8];
    code.extend(target);
    code.push(caller.len() as u8);
    code.extend(caller);
    p5a_push_section(&mut bytes, 10, &code);
    bytes
}

fn p5a_start_module() -> Vec<u8> {
    let mut bytes = vec![0x00, 0x61, 0x73, 0x6d, 0x01, 0x00, 0x00, 0x00];
    p5a_push_section(
        &mut bytes,
        1,
        &[
            0x02, 0x60, 0x00, 0x00, // type 0: () -> ()
            0x60, 0x00, 0x01, 0x7f, // type 1: () -> i32
        ],
    );
    p5a_push_section(&mut bytes, 3, &[0x02, 0x00, 0x01]);
    p5a_push_section(&mut bytes, 6, &[0x01, 0x7f, 0x01, 0x41, 0x00, 0x0b]);
    p5a_push_section(&mut bytes, 7, &[0x01, 0x03, b'r', b'u', b'n', 0x00, 0x01]);
    p5a_push_section(&mut bytes, 8, &[0x00]);
    let start = [0x00, 0x41, 0x2a, 0x24, 0x00, 0x0b];
    let run = [0x00, 0x23, 0x00, 0x0b];
    let mut code = vec![0x02, start.len() as u8];
    code.extend(start);
    code.push(run.len() as u8);
    code.extend(run);
    p5a_push_section(&mut bytes, 10, &code);
    bytes
}

#[test]
fn mutable_global_persists_across_invocations() {
    let module = parse_module(&p5a_global_counter_module(true)).unwrap();
    let mut vm = Instance::new(module).unwrap();
    assert_eq!(vm.global(0), Some(Value::I32(7)));
    assert_eq!(vm.invoke_export("run", &[]).unwrap(), Some(Value::I32(8)));
    assert_eq!(vm.invoke_export("run", &[]).unwrap(), Some(Value::I32(9)));
    assert_eq!(vm.global(0), Some(Value::I32(9)));
}

#[test]
fn call_indirect_resolves_initialized_funcref() {
    let module = parse_module(&p5a_indirect_module()).unwrap();
    let mut vm = Instance::new(module).unwrap();
    assert_eq!(
        vm.invoke_export("run", &[Value::I32(41), Value::I32(0)])
            .unwrap(),
        Some(Value::I32(42))
    );
}

#[test]
fn call_indirect_distinguishes_null_and_oob_slots() {
    let module = parse_module(&p5a_indirect_module()).unwrap();
    let mut vm = Instance::new(module).unwrap();
    let null = vm
        .invoke_export("run", &[Value::I32(41), Value::I32(1)])
        .expect_err("slot 1 is uninitialized");
    assert!(matches!(null, RuntimeError::UninitializedTableElement(1)));

    let oob = vm
        .invoke_export("run", &[Value::I32(41), Value::I32(2)])
        .expect_err("slot 2 is outside a two-entry table");
    assert!(matches!(oob, RuntimeError::TableElementOutOfBounds(2)));
}

#[test]
fn call_indirect_type_mismatch_traps_at_runtime() {
    let mut module = parse_module(&p5a_indirect_module()).unwrap();
    module.code[1].code = vec![
        0x20, 0x00, // first indirect argument
        0x20, 0x00, // second indirect argument
        0x20, 0x01, // table element index
        0x11, 0x01, 0x00, // call_indirect type 1 table 0
        0x0b,
    ];
    let mut vm = Instance::new(module).expect("statically valid indirect call");
    let error = vm
        .invoke_export("run", &[Value::I32(41), Value::I32(0)])
        .expect_err("table target has type 0, call site expects type 1");
    assert!(matches!(
        error,
        RuntimeError::IndirectCallTypeMismatch {
            expected_type: 1,
            function_index: 0
        }
    ));
}

#[test]
fn active_element_oob_is_instantiation_error() {
    let mut module = parse_module(&p5a_indirect_module()).unwrap();
    module.tables[0].limits.min = 0;
    let error = Instance::new(module).expect_err("active element must fit initial table");
    assert!(matches!(
        error,
        RuntimeError::ElementSegmentOutOfBounds { .. }
    ));
}

#[test]
fn start_function_runs_after_instance_initialization() {
    let module = parse_module(&p5a_start_module()).unwrap();
    let mut vm = Instance::new(module).unwrap();
    assert_eq!(vm.global(0), Some(Value::I32(42)));
    assert_eq!(vm.invoke_export("run", &[]).unwrap(), Some(Value::I32(42)));
}

// ---- Blocks typed by a type index: parameters, results and branches.
const P5C_I32: u8 = 0x7f;

#[derive(Clone)]
struct TypeDef {
    params: Vec<u8>,
    results: Vec<u8>,
}

fn p5c_ty(params: &[u8], results: &[u8]) -> TypeDef {
    TypeDef {
        params: params.to_vec(),
        results: results.to_vec(),
    }
}

fn p5c_push_u32(bytes: &mut Vec<u8>, mut value: u32) {
    loop {
        let mut byte = (value & 0x7f) as u8;
        value >>= 7;
        if value != 0 {
            byte |= 0x80;
        }
        bytes.push(byte);
        if value == 0 {
            break;
        }
    }
}

fn p5c_push_section(module: &mut Vec<u8>, id: u8, payload: &[u8]) {
    module.push(id);
    p5c_push_u32(module, payload.len() as u32);
    module.extend_from_slice(payload);
}

fn p5c_push_type(payload: &mut Vec<u8>, def: &TypeDef) {
    payload.push(0x60);
    p5c_push_u32(payload, def.params.len() as u32);
    payload.extend_from_slice(&def.params);
    p5c_push_u32(payload, def.results.len() as u32);
    payload.extend_from_slice(&def.results);
}

fn p5c_build_module(types: &[TypeDef], function_type: u32, instructions: &[u8]) -> Vec<u8> {
    let mut module = vec![0x00, 0x61, 0x73, 0x6d, 0x01, 0x00, 0x00, 0x00];

    let mut type_section = Vec::new();
    p5c_push_u32(&mut type_section, types.len() as u32);
    for def in types {
        p5c_push_type(&mut type_section, def);
    }
    p5c_push_section(&mut module, 1, &type_section);

    let mut function_section = vec![0x01];
    p5c_push_u32(&mut function_section, function_type);
    p5c_push_section(&mut module, 3, &function_section);
    p5c_push_section(&mut module, 7, &[0x01, 0x03, b'r', b'u', b'n', 0x00, 0x00]);

    let mut body = vec![0x00];
    body.extend_from_slice(instructions);
    body.push(0x0b);
    let mut code_section = vec![0x01];
    p5c_push_u32(&mut code_section, body.len() as u32);
    code_section.extend_from_slice(&body);
    p5c_push_section(&mut module, 10, &code_section);
    module
}

fn p5c_instance(bytes: &[u8]) -> Instance {
    Instance::new(parse_module(bytes).expect("parse the block-typing fixture"))
        .expect("instantiate the block-typing fixture")
}

#[test]
fn type_index_block_carries_parameter_and_result() {
    let module = p5c_build_module(
        &[p5c_ty(&[P5C_I32], &[P5C_I32])],
        0,
        &[0x20, 0x00, 0x02, 0x00, 0x41, 0x01, 0x6a, 0x0b],
    );
    assert_eq!(
        p5c_instance(&module)
            .invoke_export("run", &[Value::I32(41)])
            .unwrap(),
        Some(Value::I32(42))
    );
}

#[test]
fn loop_branch_uses_block_parameter_as_label_value() {
    let module = p5c_build_module(
        &[p5c_ty(&[P5C_I32], &[P5C_I32])],
        0,
        &[
            0x20, 0x00, // initial loop parameter
            0x03, 0x00, // loop (type 0: i32 -> i32)
            0x21, 0x00, // local.set 0
            0x20, 0x00, 0x41, 0x01, 0x6b, // local.get 0; i32.const 1; sub
            0x22, 0x00, // local.tee 0 leaves the next loop parameter
            0x20, 0x00, // condition
            0x0d, 0x00, // br_if 0 preserves the loop parameter
            0x0b,
        ],
    );
    assert_eq!(
        p5c_instance(&module)
            .invoke_export("run", &[Value::I32(3)])
            .unwrap(),
        Some(Value::I32(0))
    );
}

#[test]
fn if_else_restarts_each_arm_with_block_parameters() {
    let block_type = p5c_ty(&[P5C_I32], &[P5C_I32]);
    let function_type = p5c_ty(&[P5C_I32, P5C_I32], &[P5C_I32]);
    let module = p5c_build_module(
        &[block_type, function_type],
        1,
        &[
            0x20, 0x00, // block parameter
            0x20, 0x01, // condition
            0x04, 0x00, // if type 0
            0x41, 0x01, 0x6a, // then: param + 1
            0x05, // else: validator/runtime must restore the param
            0x41, 0x02, 0x6a, // else: param + 2
            0x0b,
        ],
    );
    let mut vm = p5c_instance(&module);
    assert_eq!(
        vm.invoke_export("run", &[Value::I32(10), Value::I32(1)])
            .unwrap(),
        Some(Value::I32(11))
    );
    assert_eq!(
        vm.invoke_export("run", &[Value::I32(10), Value::I32(0)])
            .unwrap(),
        Some(Value::I32(12))
    );
}

#[test]
fn branch_from_indexed_block_preserves_result_label_value() {
    let module = p5c_build_module(
        &[p5c_ty(&[P5C_I32], &[P5C_I32])],
        0,
        &[0x20, 0x00, 0x02, 0x00, 0x0c, 0x00, 0x0b],
    );
    assert_eq!(
        p5c_instance(&module)
            .invoke_export("run", &[Value::I32(77)])
            .unwrap(),
        Some(Value::I32(77))
    );
}

#[test]
fn multi_byte_type_index_block_is_decoded_as_s33() {
    let types = vec![p5c_ty(&[P5C_I32], &[P5C_I32]); 131];
    let module = p5c_build_module(
        &types,
        0,
        &[
            0x20, 0x00, 0x02, 0x82, 0x01, // block type index 130
            0x41, 0x01, 0x6a, 0x0b,
        ],
    );
    assert_eq!(
        p5c_instance(&module)
            .invoke_export("run", &[Value::I32(8)])
            .unwrap(),
        Some(Value::I32(9))
    );
}

#[test]
fn multi_result_block_signature_executes_in_order() {
    let module = p5c_build_module(
        &[p5c_ty(&[], &[P5C_I32, P5C_I32]), p5c_ty(&[], &[P5C_I32, P5C_I32])],
        0,
        &[0x02, 0x01, 0x41, 0x07, 0x41, 0x09, 0x0b],
    );
    assert_eq!(
        p5c_instance(&module).invoke_export_values("run", &[]).unwrap(),
        vec![Value::I32(7), Value::I32(9)]
    );
}

// ---- nop, drop, select and br_table.
fn cco_push_section(module: &mut Vec<u8>, id: u8, payload: &[u8]) {
    assert!(
        payload.len() < 128,
        "test helper only encodes one-byte lengths"
    );
    module.push(id);
    module.push(payload.len() as u8);
    module.extend(payload);
}

fn cco_module_with_body(params: u8, results: u8, body: &[u8]) -> Vec<u8> {
    let mut type_section = vec![0x01, 0x60, params];
    type_section.extend(std::iter::repeat(0x7f).take(params as usize));
    type_section.push(results);
    type_section.extend(std::iter::repeat(0x7f).take(results as usize));
    let mut code_payload = vec![0x01, (body.len() + 1) as u8, 0x00];
    code_payload.extend(body);
    let mut bytes = vec![0x00, 0x61, 0x73, 0x6d, 0x01, 0x00, 0x00, 0x00];
    cco_push_section(&mut bytes, 1, &type_section);
    cco_push_section(&mut bytes, 3, &[0x01, 0x00]);
    cco_push_section(&mut bytes, 7, &[0x01, 0x03, b'r', b'u', b'n', 0x00, 0x00]);
    cco_push_section(&mut bytes, 10, &code_payload);
    bytes
}

fn cco_instance(bytes: &[u8]) -> Instance {
    Instance::new(parse_module(bytes).expect("parse test module")).expect("validate test module")
}

#[test]
fn nop_and_drop_execute() {
    let bytes = cco_module_with_body(0, 1, &[0x01, 0x41, 0x07, 0x1a, 0x41, 0x2a, 0x0b]);
    let mut vm = cco_instance(&bytes);
    assert_eq!(vm.invoke_export("run", &[]).unwrap(), Some(Value::I32(42)));
}

#[test]
fn select_chooses_first_for_nonzero_condition() {
    let bytes = cco_module_with_body(0, 1, &[0x41, 0x0a, 0x41, 0x14, 0x41, 0x01, 0x1b, 0x0b]);
    let mut vm = cco_instance(&bytes);
    assert_eq!(vm.invoke_export("run", &[]).unwrap(), Some(Value::I32(10)));
}

#[test]
fn select_chooses_second_for_zero_condition() {
    let bytes = cco_module_with_body(0, 1, &[0x41, 0x0a, 0x41, 0x14, 0x41, 0x00, 0x1b, 0x0b]);
    let mut vm = cco_instance(&bytes);
    assert_eq!(vm.invoke_export("run", &[]).unwrap(), Some(Value::I32(20)));
}

#[test]
fn br_table_chooses_index_or_default_target() {
    let bytes = cco_module_with_body(
        1,
        1,
        &[
            0x02, 0x7f, 0x02, 0x7f, 0x41, 0x28, 0x20, 0x00, 0x0e, 0x01, 0x00, 0x01, 0x0b, 0x41,
            0x02, 0x6a, 0x0b, 0x0b,
        ],
    );
    let mut vm = cco_instance(&bytes);
    assert_eq!(
        vm.invoke_export("run", &[Value::I32(0)]).unwrap(),
        Some(Value::I32(42))
    );
    assert_eq!(
        vm.invoke_export("run", &[Value::I32(1)]).unwrap(),
        Some(Value::I32(40))
    );
    assert_eq!(
        vm.invoke_export("run", &[Value::I32(i32::MAX)]).unwrap(),
        Some(Value::I32(40))
    );
}

// ---- The sign-extension operators.
const CSE_I32: u8 = 0x7f;
const CSE_I64: u8 = 0x7e;

fn cse_push_u32(bytes: &mut Vec<u8>, mut value: u32) {
    loop {
        let mut byte = (value & 0x7f) as u8;
        value >>= 7;
        if value != 0 {
            byte |= 0x80;
        }
        bytes.push(byte);
        if value == 0 {
            break;
        }
    }
}

fn cse_push_section(cse_module: &mut Vec<u8>, id: u8, payload: &[u8]) {
    cse_module.push(id);
    cse_push_u32(cse_module, payload.len() as u32);
    cse_module.extend_from_slice(payload);
}

fn cse_module(param: u8, result: u8, instructions: &[u8]) -> Vec<u8> {
    let mut bytes = vec![0x00, 0x61, 0x73, 0x6d, 0x01, 0x00, 0x00, 0x00];
    cse_push_section(&mut bytes, 1, &[0x01, 0x60, 0x01, param, 0x01, result]);
    cse_push_section(&mut bytes, 3, &[0x01, 0x00]);
    cse_push_section(&mut bytes, 7, &[0x01, 0x03, b'r', b'u', b'n', 0x00, 0x00]);
    let mut body = vec![0x00];
    body.extend_from_slice(instructions);
    body.push(0x0b);
    let mut code = vec![0x01];
    cse_push_u32(&mut code, body.len() as u32);
    code.extend(body);
    cse_push_section(&mut bytes, 10, &code);
    bytes
}

fn cse_invoke_i32(opcode: u8, value: i32) -> i32 {
    let bytes = cse_module(CSE_I32, CSE_I32, &[0x20, 0x00, opcode]);
    let mut instance = Instance::new(parse_module(&bytes).unwrap()).unwrap();
    instance
        .invoke_export("run", &[Value::I32(value)])
        .unwrap()
        .unwrap()
        .as_i32()
}

fn cse_invoke_i64(opcode: u8, value: i64) -> i64 {
    let bytes = cse_module(CSE_I64, CSE_I64, &[0x20, 0x00, opcode]);
    let mut instance = Instance::new(parse_module(&bytes).unwrap()).unwrap();
    instance
        .invoke_export("run", &[Value::I64(value)])
        .unwrap()
        .unwrap()
        .as_i64()
}

#[test]
fn i32_sign_extension_uses_only_the_selected_low_lane() {
    for (opcode, cases) in [
        (
            0xc0,
            &[(0x0000_007f, 127), (0x0000_0080, -128), (0x1234_56ff, -1)][..],
        ),
        (
            0xc1,
            &[
                (0x0000_7fff, 32_767),
                (0x0000_8000, -32_768),
                (0x1234_ffff, -1),
            ][..],
        ),
    ] {
        for &(input, expected) in cases {
            assert_eq!(cse_invoke_i32(opcode, input), expected);
        }
    }
}

#[test]
fn i64_sign_extension_uses_only_the_selected_low_lane() {
    let cases: &[(u8, i64, i64)] = &[
        (0xc2, 0x7f, 127),
        (0xc2, 0x80, -128),
        (0xc2, 0x1234_5678_9abc_deff, -1),
        (0xc3, 0x7fff, 32_767),
        (0xc3, 0x8000, -32_768),
        (0xc3, 0x1234_5678_9abc_ffff, -1),
        (0xc4, 0x7fff_ffff, 2_147_483_647),
        (0xc4, 0x8000_0000, -2_147_483_648),
        (0xc4, 0x1234_5678_ffff_ffff, -1),
    ];
    for &(opcode, input, expected) in cases {
        assert_eq!(cse_invoke_i64(opcode, input), expected);
    }
}

#[test]
fn sign_extension_executes_inside_structured_control() {
    let bytes = cse_module(CSE_I32, CSE_I32, &[0x02, CSE_I32, 0x20, 0x00, 0xc0, 0x0b]);
    let mut instance = Instance::new(parse_module(&bytes).unwrap()).unwrap();
    let result = instance
        .invoke_export("run", &[Value::I32(0x180)])
        .unwrap()
        .unwrap();
    assert_eq!(result, Value::I32(-128));
}

// ---- Host capabilities, host result arity and the call-depth limit.
fn hb_imported_reader_module() -> Module {
    Module {
        types: vec![FuncType {
            params: vec![],
            results: vec![ValueType::I32],
        }],
        imports: vec![Import {
            module: "env".into(),
            name: "read_first".into(),
            desc: ImportDesc::Function(0),
        }],
        memories: vec![MemoryType {
            limits: Limits {
                min: 1,
                max: Some(1),
            },
            memory64: false,
        }],
        exports: vec![Export {
            name: "read_first".into(),
            kind: ExportKind::Function,
            index: 0,
        }],
        data: vec![DataSegment {
            mode: DataMode::Active { memory_index: 0, offset: 0 },
            bytes: b"wasm".to_vec(),
        }],
        ..Module::default()
    }
}

#[test]
fn host_memory_read_requires_explicit_capability() {
    let mut denied = HostRegistry::new();
    denied
        .register(
            "env",
            "read_first",
            vec![],
            vec![ValueType::I32],
            HostCapabilities::none(),
            |ctx, _args| {
                let bytes = ctx.read_memory(0, 4)?;
                Ok(Some(Value::I32(i32::from(bytes[0]))))
            },
        )
        .unwrap();
    let mut instance = Instance::with_hosts(hb_imported_reader_module(), denied).unwrap();
    assert!(matches!(
        instance.invoke_export("read_first", &[]),
        Err(RuntimeError::HostCallFailed {
            error: HostError::CapabilityDenied("memory.read"),
            ..
        })
    ));

    let mut allowed = HostRegistry::new();
    allowed
        .register(
            "env",
            "read_first",
            vec![],
            vec![ValueType::I32],
            HostCapabilities::memory_read(),
            |ctx, _args| {
                let bytes = ctx.read_memory(0, 4)?;
                Ok(Some(Value::I32(i32::from(bytes[0]))))
            },
        )
        .unwrap();
    let mut instance = Instance::with_hosts(hb_imported_reader_module(), allowed).unwrap();
    assert_eq!(
        instance.invoke_export("read_first", &[]).unwrap(),
        Some(Value::I32(i32::from(b'w')))
    );
}

#[test]
fn host_result_arity_is_checked_after_callback() {
    let module = hb_imported_reader_module();
    let mut hosts = HostRegistry::new();
    hosts
        .register(
            "env",
            "read_first",
            vec![],
            vec![ValueType::I32],
            HostCapabilities::none(),
            |_ctx, _args| Ok(None),
        )
        .unwrap();
    let mut instance = Instance::with_hosts(module, hosts).unwrap();
    assert!(matches!(
        instance.invoke_export("read_first", &[]),
        Err(RuntimeError::HostResultArityMismatch {
            expected: 1,
            actual: 0,
            ..
        })
    ));
}

#[test]
fn configured_call_depth_stops_recursive_wasm() {
    let module = Module {
        types: vec![FuncType {
            params: vec![],
            results: vec![],
        }],
        function_type_indices: vec![0],
        exports: vec![Export {
            name: "recurse".into(),
            kind: ExportKind::Function,
            index: 0,
        }],
        code: vec![FunctionBody {
            locals: vec![],
            code: vec![0x10, 0x00, 0x0b],
        }],
        ..Module::default()
    };
    let limits = RuntimeLimits {
        max_call_depth: 2,
        ..RuntimeLimits::default()
    };
    let mut instance = Instance::with_config(module, HostRegistry::new(), limits).unwrap();
    assert!(matches!(
        instance.invoke_export("recurse", &[]),
        Err(RuntimeError::CallDepthExceeded { limit: 2 })
    ));
}

// ---- Block types written as non-canonical signed LEB128 type indices.
const S33N_I32: u8 = 0x7f;
const S33N_NONCANONICAL_TYPE_ZERO: [u8; 2] = [0x80, 0x00];

fn s33n_push_u32(bytes: &mut Vec<u8>, mut value: u32) {
    loop {
        let mut byte = (value & 0x7f) as u8;
        value >>= 7;
        if value != 0 {
            byte |= 0x80;
        }
        bytes.push(byte);
        if value == 0 {
            break;
        }
    }
}

fn s33n_push_section(module: &mut Vec<u8>, id: u8, payload: &[u8]) {
    module.push(id);
    s33n_push_u32(module, payload.len() as u32);
    module.extend_from_slice(payload);
}

fn s33n_module_with_body(body: &[u8]) -> Vec<u8> {
    let mut module = vec![0x00, 0x61, 0x73, 0x6d, 0x01, 0x00, 0x00, 0x00];

    // type 0: () -> i32; the structured-control opener reuses this type index.
    s33n_push_section(&mut module, 1, &[0x01, 0x60, 0x00, 0x01, S33N_I32]);
    s33n_push_section(&mut module, 3, &[0x01, 0x00]);
    s33n_push_section(&mut module, 7, &[0x01, 0x03, b'r', b'u', b'n', 0x00, 0x00]);

    let mut code = vec![0x01];
    s33n_push_u32(&mut code, body.len() as u32);
    code.extend_from_slice(body);
    s33n_push_section(&mut module, 10, &code);
    module
}

fn s33n_invoke(body: &[u8]) -> Value {
    let module = parse_module(&s33n_module_with_body(body)).expect("noncanonical blocktype must parse");
    let mut instance = Instance::new(module).expect("noncanonical blocktype must validate");
    instance
        .invoke_export("run", &[])
        .expect("noncanonical blocktype must execute")
        .expect("fixture returns i32")
}

#[test]
fn block_accepts_noncanonical_signed_33_type_index() {
    let mut body = vec![0x00, 0x02]; // no locals; block
    body.extend_from_slice(&S33N_NONCANONICAL_TYPE_ZERO);
    body.extend([0x41, 0x2a, 0x0b, 0x0b]); // i32.const 42; end block; end function

    assert_eq!(s33n_invoke(&body), Value::I32(42));
}

#[test]
fn loop_accepts_noncanonical_signed_33_type_index() {
    let mut body = vec![0x00, 0x03]; // no locals; loop
    body.extend_from_slice(&S33N_NONCANONICAL_TYPE_ZERO);
    body.extend([0x41, 0x2a, 0x0b, 0x0b]); // i32.const 42; end loop; end function

    assert_eq!(s33n_invoke(&body), Value::I32(42));
}

#[test]
fn if_accepts_noncanonical_signed_33_type_index() {
    let mut body = vec![0x00, 0x41, 0x01, 0x04]; // no locals; i32.const 1; if
    body.extend_from_slice(&S33N_NONCANONICAL_TYPE_ZERO);
    body.extend([
        0x41, 0x2a, // then: i32.const 42
        0x05, // else
        0x41, 0x07, // else: i32.const 7
        0x0b, // end if
        0x0b, // end function
    ]);

    assert_eq!(s33n_invoke(&body), Value::I32(42));
}

// ---- Constant expressions with non-canonical signed LEB128 literals.
fn cen_push_u32(bytes: &mut Vec<u8>, mut value: u32) {
    loop {
        let mut byte = (value & 0x7f) as u8;
        value >>= 7;
        if value != 0 {
            byte |= 0x80;
        }
        bytes.push(byte);
        if value == 0 {
            break;
        }
    }
}

fn cen_push_section(module: &mut Vec<u8>, id: u8, payload: &[u8]) {
    module.push(id);
    cen_push_u32(module, payload.len() as u32);
    module.extend_from_slice(payload);
}

fn cen_header() -> Vec<u8> {
    vec![0x00, 0x61, 0x73, 0x6d, 0x01, 0x00, 0x00, 0x00]
}

#[test]
fn defined_numeric_globals_accept_noncanonical_signed_leb_literals() {
    let mut bytes = cen_header();
    cen_push_section(
        &mut bytes,
        6,
        &[
            0x02, // two globals
            0x7f, 0x00, // immutable i32
            0x41, 0x81, 0x00, 0x0b, // i32.const 1; end
            0x7e, 0x00, // immutable i64
            0x42, 0x81, 0x00, 0x0b, // i64.const 1; end
        ],
    );

    let module = parse_module(&bytes).expect("noncanonical signed LEB globals must parse");
    assert_eq!(module.globals[0].init, Constant::I32(1));
    assert_eq!(module.globals[1].init, Constant::I64(1));
    Instance::new(module).expect("noncanonical signed LEB globals must instantiate");
}

#[test]
fn active_data_offset_accepts_noncanonical_signed_leb_i32() {
    let mut bytes = cen_header();
    cen_push_section(&mut bytes, 5, &[0x01, 0x00, 0x01]); // memory min=1
    cen_push_section(
        &mut bytes,
        11,
        &[
            0x01, // one segment
            0x00, // active mode 0
            0x41, 0x81, 0x00, 0x0b, // i32.const 1; end
            0x01, 0xaa, // one payload byte
        ],
    );

    let module = parse_module(&bytes).expect("noncanonical data offset must parse");
    assert_eq!(module.data[0].mode, DataMode::Active { memory_index: 0, offset: 1 });
    Instance::new(module).expect("noncanonical data offset must instantiate");
}

#[test]
fn active_element_offset_accepts_noncanonical_signed_leb_i32() {
    let mut bytes = cen_header();
    cen_push_section(&mut bytes, 1, &[0x01, 0x60, 0x00, 0x00]); // () -> ()
    cen_push_section(&mut bytes, 3, &[0x01, 0x00]); // one function, type 0
    cen_push_section(&mut bytes, 4, &[0x01, 0x70, 0x00, 0x02]); // funcref table min=2
    cen_push_section(
        &mut bytes,
        9,
        &[
            0x01, // one segment
            0x00, // active mode 0
            0x41, 0x81, 0x00, 0x0b, // i32.const 1; end
            0x01, 0x00, // one function index: 0
        ],
    );
    cen_push_section(&mut bytes, 10, &[0x01, 0x02, 0x00, 0x0b]); // one empty body

    let module = parse_module(&bytes).expect("noncanonical element offset must parse");
    assert_eq!(module.elements[0].mode, ElementMode::Active { table_index: 0, offset: 1 });
    Instance::new(module).expect("noncanonical element offset must instantiate");
}

// ---- Host functions with several results.
fn hmv_forwarding_multi_result_import() -> Module {
    Module {
        types: vec![FuncType {
            params: vec![ValueType::I32],
            results: vec![
                ValueType::I32,
                ValueType::I64,
                ValueType::F32,
                ValueType::F64,
            ],
        }],
        imports: vec![Import {
            module: "env".into(),
            name: "multi".into(),
            desc: ImportDesc::Function(0),
        }],
        function_type_indices: vec![0],
        exports: vec![Export {
            name: "run".into(),
            kind: ExportKind::Function,
            index: 1,
        }],
        code: vec![FunctionBody {
            locals: vec![],
            code: vec![0x20, 0x00, 0x10, 0x00, 0x0b],
        }],
        ..Module::default()
    }
}

fn hmv_multi_result_types() -> Vec<ValueType> {
    vec![
        ValueType::I32,
        ValueType::I64,
        ValueType::F32,
        ValueType::F64,
    ]
}

#[test]
fn vector_host_callback_forwards_ordered_multi_results_through_defined_wasm() {
    let mut hosts = HostRegistry::new();
    hosts
        .register_values(
            "env",
            "multi",
            vec![ValueType::I32],
            hmv_multi_result_types(),
            HostCapabilities::none(),
            |_ctx, args| {
                let input = args[0].as_i32();
                Ok(vec![
                    Value::I32(input.wrapping_add(1)),
                    Value::I64(i64::from(input).wrapping_mul(2)),
                    f32v(input as f32 + 0.5),
                    f64v(f64::from(input) - 0.25),
                ])
            },
        )
        .unwrap();

    let mut instance = Instance::with_hosts(hmv_forwarding_multi_result_import(), hosts).unwrap();
    let results = instance
        .invoke_export_values("run", &[Value::I32(17)])
        .unwrap();
    assert_eq!(results[0], Value::I32(18));
    assert_eq!(results[1], Value::I64(34));
    assert_eq!(results[2].as_f32().to_bits(), 17.5_f32.to_bits());
    assert_eq!(results[3].as_f64().to_bits(), 16.75_f64.to_bits());
}

#[test]
fn legacy_register_remains_zero_or_one_result_only() {
    let mut hosts = HostRegistry::new();
    assert_eq!(
        hosts.register(
            "env",
            "multi",
            vec![],
            vec![ValueType::I32, ValueType::I64],
            HostCapabilities::none(),
            |_ctx, _args| Ok(Some(Value::I32(1))),
        ),
        Err(HostRegistryError::UnsupportedSignature)
    );
}

#[test]
fn legacy_invoke_api_rejects_multi_result_before_host_callback_runs() {
    let calls = Rc::new(Cell::new(0usize));
    let callback_calls = Rc::clone(&calls);
    let mut hosts = HostRegistry::new();
    hosts
        .register_values(
            "env",
            "multi",
            vec![ValueType::I32],
            hmv_multi_result_types(),
            HostCapabilities::none(),
            move |_ctx, _args| {
                callback_calls.set(callback_calls.get() + 1);
                Ok(vec![
                    Value::I32(1),
                    Value::I64(2),
                    f32v(3.0),
                    f64v(4.0),
                ])
            },
        )
        .unwrap();
    let mut instance = Instance::with_hosts(hmv_forwarding_multi_result_import(), hosts).unwrap();

    assert!(matches!(
        instance.invoke_export("run", &[Value::I32(0)]),
        Err(RuntimeError::MultiValueResultRequiresValuesApi { results: 4 })
    ));
    assert_eq!(calls.get(), 0);
}

#[test]
fn vector_host_callback_result_arity_is_checked_after_callback() {
    let mut hosts = HostRegistry::new();
    hosts
        .register_values(
            "env",
            "multi",
            vec![ValueType::I32],
            hmv_multi_result_types(),
            HostCapabilities::none(),
            |_ctx, _args| Ok(vec![Value::I32(1), Value::I64(2), f32v(3.0)]),
        )
        .unwrap();
    let mut instance = Instance::with_hosts(hmv_forwarding_multi_result_import(), hosts).unwrap();

    assert!(matches!(
        instance.invoke_export_values("run", &[Value::I32(0)]),
        Err(RuntimeError::HostResultArityMismatch {
            expected: 4,
            actual: 3,
            ..
        })
    ));
}

#[test]
fn vector_host_callback_result_types_are_checked_in_declared_order() {
    let mut hosts = HostRegistry::new();
    hosts
        .register_values(
            "env",
            "multi",
            vec![ValueType::I32],
            hmv_multi_result_types(),
            HostCapabilities::none(),
            |_ctx, _args| {
                Ok(vec![
                    Value::I32(1),
                    Value::I64(2),
                    f64v(3.0),
                    f32v(4.0),
                ])
            },
        )
        .unwrap();
    let mut instance = Instance::with_hosts(hmv_forwarding_multi_result_import(), hosts).unwrap();

    assert!(matches!(
        instance.invoke_export_values("run", &[Value::I32(0)]),
        Err(RuntimeError::HostResultTypeMismatch {
            expected: ValueType::F32,
            actual: ValueType::F64,
            ..
        })
    ));
}

#[test]
fn vector_host_registration_still_requires_exact_import_signature() {
    let mut hosts = HostRegistry::new();
    hosts
        .register_values(
            "env",
            "multi",
            vec![ValueType::I32],
            vec![ValueType::I32, ValueType::I64],
            HostCapabilities::none(),
            |_ctx, _args| Ok(vec![Value::I32(1), Value::I64(2)]),
        )
        .unwrap();

    assert!(matches!(
        Instance::with_hosts(hmv_forwarding_multi_result_import(), hosts),
        Err(RuntimeError::HostSignatureMismatch { .. })
    ));
}

// ---- Typed values: i64 and float arithmetic, comparisons, conversions, locals, globals and calls.
const P5B_I32: u8 = 0x7f;
const P5B_I64: u8 = 0x7e;
const P5B_F32: u8 = 0x7d;
const P5B_F64: u8 = 0x7c;

fn p5b_push_u32(bytes: &mut Vec<u8>, mut value: u32) {
    loop {
        let mut byte = (value & 0x7f) as u8;
        value >>= 7;
        if value != 0 {
            byte |= 0x80;
        }
        bytes.push(byte);
        if value == 0 {
            break;
        }
    }
}

fn p5b_push_section(module: &mut Vec<u8>, id: u8, payload: &[u8]) {
    module.push(id);
    p5b_push_u32(module, payload.len() as u32);
    module.extend_from_slice(payload);
}

fn p5b_push_func_type(payload: &mut Vec<u8>, params: &[u8], result: Option<u8>) {
    payload.push(0x60);
    p5b_push_u32(payload, params.len() as u32);
    payload.extend_from_slice(params);
    match result {
        Some(result) => payload.extend([0x01, result]),
        None => payload.push(0x00),
    }
}

fn p5b_push_body(payload: &mut Vec<u8>, locals: &[(u32, u8)], instructions: &[u8]) {
    let mut body = Vec::new();
    p5b_push_u32(&mut body, locals.len() as u32);
    for &(count, ty) in locals {
        p5b_push_u32(&mut body, count);
        body.push(ty);
    }
    body.extend_from_slice(instructions);
    body.push(0x0b);
    p5b_push_u32(payload, body.len() as u32);
    payload.extend(body);
}

fn p5b_single_function_module(
    params: &[u8],
    result: Option<u8>,
    locals: &[(u32, u8)],
    instructions: &[u8],
) -> Vec<u8> {
    let mut module = vec![0x00, 0x61, 0x73, 0x6d, 0x01, 0x00, 0x00, 0x00];
    let mut types = vec![0x01];
    p5b_push_func_type(&mut types, params, result);
    p5b_push_section(&mut module, 1, &types);
    p5b_push_section(&mut module, 3, &[0x01, 0x00]);
    p5b_push_section(
        &mut module,
        7,
        &[0x01, 0x03, b'r', b'u', b'n', 0x00, 0x00],
    );
    let mut code = vec![0x01];
    p5b_push_body(&mut code, locals, instructions);
    p5b_push_section(&mut module, 10, &code);
    module
}

fn p5b_instance(bytes: &[u8]) -> Instance {
    Instance::new(parse_module(bytes).expect("parse fixture")).expect("instantiate fixture")
}

fn p5b_f32_const(value: f32) -> Vec<u8> {
    let mut bytes = vec![0x43];
    bytes.extend(value.to_bits().to_le_bytes());
    bytes
}

fn p5b_f64_const(value: f64) -> Vec<u8> {
    let mut bytes = vec![0x44];
    bytes.extend(value.to_bits().to_le_bytes());
    bytes
}

#[test]
fn executes_i64_wrapping_arithmetic() {
    let module = p5b_single_function_module(
        &[P5B_I64, P5B_I64],
        Some(P5B_I64),
        &[],
        &[0x20, 0x00, 0x20, 0x01, 0x7c],
    );
    let mut vm = p5b_instance(&module);
    assert_eq!(
        vm.invoke_export("run", &[Value::I64(i64::MAX), Value::I64(1)])
            .unwrap(),
        Some(Value::I64(i64::MIN))
    );
}

#[test]
fn executes_f32_and_f64_arithmetic() {
    let f32_module = p5b_single_function_module(
        &[P5B_F32, P5B_F32],
        Some(P5B_F32),
        &[],
        &[0x20, 0x00, 0x20, 0x01, 0x94],
    );
    let mut f32_vm = p5b_instance(&f32_module);
    assert_eq!(
        f32_vm
            .invoke_export("run", &[f32v(1.5), f32v(4.0)])
            .unwrap(),
        Some(f32v(6.0))
    );

    let f64_module = p5b_single_function_module(
        &[P5B_F64, P5B_F64],
        Some(P5B_F64),
        &[],
        &[0x20, 0x00, 0x20, 0x01, 0xa3],
    );
    let mut f64_vm = p5b_instance(&f64_module);
    assert_eq!(
        f64_vm
            .invoke_export("run", &[f64v(9.0), f64v(4.5)])
            .unwrap(),
        Some(f64v(2.0))
    );
}

#[test]
fn distinguishes_signed_and_unsigned_integer_comparisons() {
    let signed = p5b_single_function_module(
        &[P5B_I32],
        Some(P5B_I32),
        &[],
        &[0x20, 0x00, 0x41, 0x01, 0x48],
    );
    let unsigned = p5b_single_function_module(
        &[P5B_I32],
        Some(P5B_I32),
        &[],
        &[0x20, 0x00, 0x41, 0x01, 0x49],
    );
    assert_eq!(
        p5b_instance(&signed)
            .invoke_export("run", &[Value::I32(-1)])
            .unwrap(),
        Some(Value::I32(1))
    );
    assert_eq!(
        p5b_instance(&unsigned)
            .invoke_export("run", &[Value::I32(-1)])
            .unwrap(),
        Some(Value::I32(0))
    );

    let i64_unsigned = p5b_single_function_module(
        &[P5B_I64],
        Some(P5B_I32),
        &[],
        &[0x20, 0x00, 0x42, 0x01, 0x54],
    );
    assert_eq!(
        p5b_instance(&i64_unsigned)
            .invoke_export("run", &[Value::I64(-1)])
            .unwrap(),
        Some(Value::I32(0))
    );
}

#[test]
fn float_nan_comparisons_follow_ieee_rules() {
    let eq = p5b_single_function_module(
        &[P5B_F32, P5B_F32],
        Some(P5B_I32),
        &[],
        &[0x20, 0x00, 0x20, 0x01, 0x5b],
    );
    let ne = p5b_single_function_module(
        &[P5B_F64, P5B_F64],
        Some(P5B_I32),
        &[],
        &[0x20, 0x00, 0x20, 0x01, 0x62],
    );
    assert_eq!(
        p5b_instance(&eq)
            .invoke_export("run", &[f32v(f32::NAN), f32v(f32::NAN)])
            .unwrap(),
        Some(Value::I32(0))
    );
    assert_eq!(
        p5b_instance(&ne)
            .invoke_export("run", &[f64v(f64::NAN), f64v(f64::NAN)])
            .unwrap(),
        Some(Value::I32(1))
    );
}

#[test]
fn executes_selected_non_trapping_conversions() {
    let wrap = p5b_single_function_module(&[P5B_I64], Some(P5B_I32), &[], &[0x20, 0x00, 0xa7]);
    assert_eq!(
        p5b_instance(&wrap)
            .invoke_export("run", &[Value::I64(0x1_0000_0001)])
            .unwrap(),
        Some(Value::I32(1))
    );

    let extend_s = p5b_single_function_module(&[P5B_I32], Some(P5B_I64), &[], &[0x20, 0x00, 0xac]);
    let extend_u = p5b_single_function_module(&[P5B_I32], Some(P5B_I64), &[], &[0x20, 0x00, 0xad]);
    assert_eq!(
        p5b_instance(&extend_s)
            .invoke_export("run", &[Value::I32(-1)])
            .unwrap(),
        Some(Value::I64(-1))
    );
    assert_eq!(
        p5b_instance(&extend_u)
            .invoke_export("run", &[Value::I32(-1)])
            .unwrap(),
        Some(Value::I64(4_294_967_295))
    );

    let demote = p5b_single_function_module(&[P5B_F64], Some(P5B_F32), &[], &[0x20, 0x00, 0xb6]);
    let promote = p5b_single_function_module(&[P5B_F32], Some(P5B_F64), &[], &[0x20, 0x00, 0xbb]);
    assert_eq!(
        p5b_instance(&demote)
            .invoke_export("run", &[f64v(1.25)])
            .unwrap(),
        Some(f32v(1.25))
    );
    assert_eq!(
        p5b_instance(&promote)
            .invoke_export("run", &[f32v(1.25)])
            .unwrap(),
        Some(f64v(1.25))
    );
}

#[test]
fn typed_locals_zero_initialize_by_declared_type() {
    for (ty, expected) in [
        (P5B_I64, Value::I64(0)),
        (P5B_F32, f32v(0.0)),
        (P5B_F64, f64v(0.0)),
    ] {
        let module = p5b_single_function_module(&[], Some(ty), &[(1, ty)], &[0x20, 0x00]);
        assert_eq!(p5b_instance(&module).invoke_export("run", &[]).unwrap(), Some(expected));
    }
}

#[test]
fn typed_global_state_persists() {
    let mut module = vec![0x00, 0x61, 0x73, 0x6d, 0x01, 0x00, 0x00, 0x00];
    let mut types = vec![0x01];
    p5b_push_func_type(&mut types, &[], Some(P5B_I64));
    p5b_push_section(&mut module, 1, &types);
    p5b_push_section(&mut module, 3, &[0x01, 0x00]);
    p5b_push_section(&mut module, 6, &[0x01, P5B_I64, 0x01, 0x42, 0x01, 0x0b]);
    p5b_push_section(
        &mut module,
        7,
        &[0x01, 0x03, b'r', b'u', b'n', 0x00, 0x00],
    );
    let mut code = vec![0x01];
    p5b_push_body(
        &mut code,
        &[],
        &[0x23, 0x00, 0x42, 0x01, 0x7c, 0x24, 0x00, 0x23, 0x00],
    );
    p5b_push_section(&mut module, 10, &code);

    let mut vm = p5b_instance(&module);
    assert_eq!(vm.global(0), Some(Value::I64(1)));
    assert_eq!(vm.invoke_export("run", &[]).unwrap(), Some(Value::I64(2)));
    assert_eq!(vm.invoke_export("run", &[]).unwrap(), Some(Value::I64(3)));
}

#[test]
fn typed_block_result_is_preserved() {
    let mut instructions = vec![0x02, P5B_F64];
    instructions.extend(p5b_f64_const(3.5));
    instructions.push(0x0b);
    let module = p5b_single_function_module(&[], Some(P5B_F64), &[], &instructions);
    assert_eq!(
        p5b_instance(&module).invoke_export("run", &[]).unwrap(),
        Some(f64v(3.5))
    );
}

#[test]
fn direct_call_supports_non_i32_signature() {
    let mut module = vec![0x00, 0x61, 0x73, 0x6d, 0x01, 0x00, 0x00, 0x00];
    let mut types = vec![0x01];
    p5b_push_func_type(&mut types, &[P5B_F64], Some(P5B_F64));
    p5b_push_section(&mut module, 1, &types);
    p5b_push_section(&mut module, 3, &[0x02, 0x00, 0x00]);
    p5b_push_section(
        &mut module,
        7,
        &[0x01, 0x03, b'r', b'u', b'n', 0x00, 0x01],
    );
    let mut code = vec![0x02];
    let mut target = vec![0x20, 0x00];
    target.extend(p5b_f64_const(2.0));
    target.push(0xa2);
    p5b_push_body(&mut code, &[], &target);
    p5b_push_body(&mut code, &[], &[0x20, 0x00, 0x10, 0x00]);
    p5b_push_section(&mut module, 10, &code);

    assert_eq!(
        p5b_instance(&module)
            .invoke_export("run", &[f64v(4.25)])
            .unwrap(),
        Some(f64v(8.5))
    );
}

#[test]
fn indirect_call_supports_non_i32_signature() {
    let mut module = vec![0x00, 0x61, 0x73, 0x6d, 0x01, 0x00, 0x00, 0x00];
    let mut types = vec![0x02];
    p5b_push_func_type(&mut types, &[P5B_F64], Some(P5B_F64));
    p5b_push_func_type(&mut types, &[P5B_F64, P5B_I32], Some(P5B_F64));
    p5b_push_section(&mut module, 1, &types);
    p5b_push_section(&mut module, 3, &[0x02, 0x00, 0x01]);
    p5b_push_section(&mut module, 4, &[0x01, 0x70, 0x00, 0x01]);
    p5b_push_section(
        &mut module,
        7,
        &[0x01, 0x03, b'r', b'u', b'n', 0x00, 0x01],
    );
    p5b_push_section(&mut module, 9, &[0x01, 0x00, 0x41, 0x00, 0x0b, 0x01, 0x00]);
    let mut code = vec![0x02];
    let mut target = vec![0x20, 0x00];
    target.extend(p5b_f64_const(2.0));
    target.push(0xa0);
    p5b_push_body(&mut code, &[], &target);
    p5b_push_body(
        &mut code,
        &[],
        &[0x20, 0x00, 0x20, 0x01, 0x11, 0x00, 0x00],
    );
    p5b_push_section(&mut module, 10, &code);

    assert_eq!(
        p5b_instance(&module)
            .invoke_export("run", &[f64v(40.0), Value::I32(0)])
            .unwrap(),
        Some(f64v(42.0))
    );
}

#[test]
fn runtime_rejects_wrong_argument_variant_before_execution() {
    let module = p5b_single_function_module(&[P5B_I64], Some(P5B_I64), &[], &[0x20, 0x00]);
    let error = p5b_instance(&module)
        .invoke_export("run", &[Value::I32(7)])
        .expect_err("wrong runtime variant must be rejected");
    assert!(matches!(
        error,
        RuntimeError::ValueTypeMismatch {
            expected: ValueType::I64,
            actual: ValueType::I32,
        }
    ));
}

#[test]
fn wrong_host_argument_variant_is_rejected_before_callback() {
    let mut module = vec![0x00, 0x61, 0x73, 0x6d, 0x01, 0x00, 0x00, 0x00];
    let mut types = vec![0x01];
    p5b_push_func_type(&mut types, &[P5B_I32], Some(P5B_I32));
    p5b_push_section(&mut module, 1, &types);
    p5b_push_section(
        &mut module,
        2,
        &[
            0x01, 0x03, b'e', b'n', b'v', 0x01, b'f', 0x00, 0x00,
        ],
    );
    p5b_push_section(
        &mut module,
        7,
        &[0x01, 0x01, b'f', 0x00, 0x00],
    );
    let module = parse_module(&module).unwrap();

    let called = Rc::new(Cell::new(false));
    let callback_called = called.clone();
    let mut hosts = HostRegistry::new();
    hosts
        .register(
            "env",
            "f",
            vec![ValueType::I32],
            vec![ValueType::I32],
            HostCapabilities::none(),
            move |_ctx, _args| {
                callback_called.set(true);
                Ok(Some(Value::I32(1)))
            },
        )
        .unwrap();
    let mut vm = Instance::with_hosts(module, hosts).unwrap();
    let error = vm
        .invoke_export("f", &[Value::I64(7)])
        .expect_err("wrong host argument type must fail before callback");
    assert!(!called.get());
    assert!(matches!(
        error,
        RuntimeError::ValueTypeMismatch {
            expected: ValueType::I32,
            actual: ValueType::I64,
        }
    ));
}

// ---- Traps during execution.
const NC_I32: u8 = 0x7f;
const NC_F32: u8 = 0x7d;

#[derive(Debug)]
enum ExpectedFailure {
    ParseInvalidMagic,
    ParseUnsupportedVersion,
    ParseInvalidImportKind,
    ParseInvalidExportKind,
    ValidateTypeMismatch,
    ValidateUnsupportedOpcode(u8),
    ValidateMalformedImmediate,
    ValidateFunctionExportOutOfBounds(u32),
    ValidateBranchDepthOutOfBounds(u32),
    ValidateMemoryInstructionWithoutMemory,
    InstantiateUnresolvedFunctionImport,
    InstantiateUnresolvedMemoryImport,
    InstantiateDataSegmentOutOfBounds,
    ExecuteIntegerDivisionByZero,
    ExecuteIntegerOverflow,
    ExecuteMemoryOutOfBounds,
    ExecuteInvalidConversionToInteger,
}

#[derive(Debug)]
struct Case {
    name: &'static str,
    bytes: Vec<u8>,
    args: Vec<Value>,
    expected: ExpectedFailure,
}

#[derive(Debug)]
enum ObservedFailure {
    Parse(ParseError),
    Instantiate(RuntimeError),
    Execute(RuntimeError),
    Success,
}

fn nc_push_u32(bytes: &mut Vec<u8>, mut value: u32) {
    loop {
        let mut byte = (value & 0x7f) as u8;
        value >>= 7;
        if value != 0 {
            byte |= 0x80;
        }
        bytes.push(byte);
        if value == 0 {
            break;
        }
    }
}

fn nc_push_name(bytes: &mut Vec<u8>, name: &str) {
    nc_push_u32(bytes, name.len() as u32);
    bytes.extend_from_slice(name.as_bytes());
}

fn nc_push_section(module: &mut Vec<u8>, id: u8, payload: &[u8]) {
    module.push(id);
    nc_push_u32(module, payload.len() as u32);
    module.extend_from_slice(payload);
}

fn nc_header() -> Vec<u8> {
    vec![0x00, 0x61, 0x73, 0x6d, 0x01, 0x00, 0x00, 0x00]
}

fn nc_function_module(
    params: &[u8],
    results: &[u8],
    instructions: &[u8],
    export_index: u32,
    memory_minimum: Option<u32>,
) -> Vec<u8> {
    let mut bytes = nc_header();

    let mut ty = vec![0x01, 0x60];
    nc_push_u32(&mut ty, params.len() as u32);
    ty.extend_from_slice(params);
    nc_push_u32(&mut ty, results.len() as u32);
    ty.extend_from_slice(results);
    nc_push_section(&mut bytes, 1, &ty);
    nc_push_section(&mut bytes, 3, &[0x01, 0x00]);

    if let Some(minimum) = memory_minimum {
        let mut memory = vec![0x01, 0x00];
        nc_push_u32(&mut memory, minimum);
        nc_push_section(&mut bytes, 5, &memory);
    }

    let mut export = vec![0x01, 0x03, b'r', b'u', b'n', 0x00];
    nc_push_u32(&mut export, export_index);
    nc_push_section(&mut bytes, 7, &export);

    let mut body = vec![0x00];
    body.extend_from_slice(instructions);
    body.push(0x0b);
    let mut code = vec![0x01];
    nc_push_u32(&mut code, body.len() as u32);
    code.extend(body);
    nc_push_section(&mut bytes, 10, &code);
    bytes
}

fn nc_invalid_import_kind_module() -> Vec<u8> {
    let mut bytes = nc_header();
    nc_push_section(&mut bytes, 1, &[0x01, 0x60, 0x00, 0x00]);
    let mut import = vec![0x01];
    nc_push_name(&mut import, "env");
    nc_push_name(&mut import, "bad");
    import.push(0x04);
    nc_push_section(&mut bytes, 2, &import);
    bytes
}

fn nc_invalid_export_kind_module() -> Vec<u8> {
    let mut bytes = nc_header();
    let mut export = vec![0x01];
    nc_push_name(&mut export, "bad");
    export.push(0x04);
    export.push(0x00);
    nc_push_section(&mut bytes, 7, &export);
    bytes
}

fn nc_unresolved_function_import_module() -> Vec<u8> {
    let mut bytes = nc_header();
    nc_push_section(&mut bytes, 1, &[0x01, 0x60, 0x00, 0x00]);

    let mut import = vec![0x01];
    nc_push_name(&mut import, "env");
    nc_push_name(&mut import, "missing");
    import.push(0x00);
    import.push(0x00);
    nc_push_section(&mut bytes, 2, &import);

    let mut export = vec![0x01];
    nc_push_name(&mut export, "run");
    export.push(0x00);
    export.push(0x00);
    nc_push_section(&mut bytes, 7, &export);
    bytes
}

fn nc_unresolved_memory_import_module() -> Vec<u8> {
    let mut bytes = nc_header();
    let mut import = vec![0x01];
    nc_push_name(&mut import, "env");
    nc_push_name(&mut import, "memory");
    import.push(0x02);
    import.push(0x00);
    import.push(0x01);
    nc_push_section(&mut bytes, 2, &import);
    bytes
}

fn nc_data_segment_oob_module() -> Vec<u8> {
    let mut bytes = nc_header();
    nc_push_section(&mut bytes, 5, &[0x01, 0x00, 0x00]);
    nc_push_section(
        &mut bytes,
        11,
        &[0x01, 0x00, 0x41, 0x00, 0x0b, 0x01, 0xaa],
    );
    bytes
}

fn nc_observe(case: &Case) -> ObservedFailure {
    let module = match parse_module(&case.bytes) {
        Ok(module) => module,
        Err(error) => return ObservedFailure::Parse(error),
    };

    let mut instance = match Instance::new(module) {
        Ok(instance) => instance,
        Err(error) => return ObservedFailure::Instantiate(error),
    };

    if matches!(
        case.expected,
        ExpectedFailure::ExecuteIntegerDivisionByZero
            | ExpectedFailure::ExecuteIntegerOverflow
            | ExpectedFailure::ExecuteMemoryOutOfBounds
            | ExpectedFailure::ExecuteInvalidConversionToInteger
    ) {
        return match instance.invoke_export("run", &case.args) {
            Ok(_) => ObservedFailure::Success,
            Err(error) => ObservedFailure::Execute(error),
        };
    }

    ObservedFailure::Success
}

fn nc_assert_case(case: Case) {
    let observed = nc_observe(&case);
    let matched = match (&case.expected, &observed) {
        (ExpectedFailure::ParseInvalidMagic, ObservedFailure::Parse(ParseError::InvalidMagic(_))) => {
            true
        }
        (
            ExpectedFailure::ParseUnsupportedVersion,
            ObservedFailure::Parse(ParseError::UnsupportedVersion(_)),
        ) => true,
        (
            ExpectedFailure::ParseInvalidImportKind,
            ObservedFailure::Parse(ParseError::InvalidImportKind(0x04)),
        ) => true,
        (
            ExpectedFailure::ParseInvalidExportKind,
            ObservedFailure::Parse(ParseError::InvalidExportKind(0x04)),
        ) => true,
        (
            ExpectedFailure::InstantiateUnresolvedFunctionImport,
            ObservedFailure::Instantiate(RuntimeError::UnresolvedImport { module, name }),
        ) => module == "env" && name == "missing",
        (
            ExpectedFailure::InstantiateUnresolvedMemoryImport,
            ObservedFailure::Instantiate(RuntimeError::UnresolvedMemoryImport { module, name }),
        ) => module == "env" && name == "memory",
        (
            ExpectedFailure::InstantiateDataSegmentOutOfBounds,
            ObservedFailure::Instantiate(RuntimeError::DataSegmentOutOfBounds { .. }),
        ) => true,
        (
            ExpectedFailure::ExecuteIntegerDivisionByZero,
            ObservedFailure::Execute(RuntimeError::IntegerDivisionByZero),
        ) => true,
        (
            ExpectedFailure::ExecuteIntegerOverflow,
            ObservedFailure::Execute(RuntimeError::IntegerOverflow),
        ) => true,
        (
            ExpectedFailure::ExecuteMemoryOutOfBounds,
            ObservedFailure::Execute(RuntimeError::MemoryOutOfBounds { width: 4, .. }),
        ) => true,
        (
            ExpectedFailure::ExecuteInvalidConversionToInteger,
            ObservedFailure::Execute(RuntimeError::InvalidConversionToInteger),
        ) => true,
        _ => false,
    };

    assert!(
        matched,
        "negative-conformance case {:?} expected {:?}, observed {:?}",
        case.name, case.expected, observed
    );
}

#[test]
fn execution_traps_are_not_misclassified_as_validation_or_instantiation_errors() {
    for case in [
        Case {
            name: "i32 division by zero",
            bytes: nc_function_module(&[], &[NC_I32], &[0x41, 0x01, 0x41, 0x00, 0x6d], 0, None),
            args: vec![],
            expected: ExpectedFailure::ExecuteIntegerDivisionByZero,
        },
        Case {
            name: "i32 signed division overflow",
            bytes: nc_function_module(
                &[NC_I32, NC_I32],
                &[NC_I32],
                &[0x20, 0x00, 0x20, 0x01, 0x6d],
                0,
                None,
            ),
            args: vec![Value::I32(i32::MIN), Value::I32(-1)],
            expected: ExpectedFailure::ExecuteIntegerOverflow,
        },
        Case {
            name: "i32.load dynamic out of bounds",
            bytes: nc_function_module(
                &[],
                &[NC_I32],
                &[0x41, 0x7f, 0x28, 0x02, 0x00],
                0,
                Some(1),
            ),
            args: vec![],
            expected: ExpectedFailure::ExecuteMemoryOutOfBounds,
        },
        Case {
            name: "NaN trapping conversion",
            bytes: nc_function_module(&[NC_F32], &[NC_I32], &[0x20, 0x00, 0xa8], 0, None),
            args: vec![f32v(f32::NAN)],
            expected: ExpectedFailure::ExecuteInvalidConversionToInteger,
        },
    ] {
        nc_assert_case(case);
    }
}

// ---- Comparisons in unreachable code.
const CVB_I32: u8 = 0x7f;
const CVB_I64: u8 = 0x7e;
const CVB_F32: u8 = 0x7d;
const CVB_F64: u8 = 0x7c;

const CVB_I32_EQZ: [u8; 1] = [0x45];
const CVB_I32_COMPARE: [u8; 10] = [0x46, 0x47, 0x48, 0x49, 0x4a, 0x4b, 0x4c, 0x4d, 0x4e, 0x4f];
const CVB_I64_EQZ: [u8; 1] = [0x50];
const CVB_I64_COMPARE: [u8; 10] = [0x51, 0x52, 0x53, 0x54, 0x55, 0x56, 0x57, 0x58, 0x59, 0x5a];
const CVB_F32_COMPARE: [u8; 6] = [0x5b, 0x5c, 0x5d, 0x5e, 0x5f, 0x60];
const CVB_F64_COMPARE: [u8; 6] = [0x61, 0x62, 0x63, 0x64, 0x65, 0x66];

fn cvb_push_u32(bytes: &mut Vec<u8>, mut value: u32) {
    loop {
        let mut byte = (value & 0x7f) as u8;
        value >>= 7;
        if value != 0 {
            byte |= 0x80;
        }
        bytes.push(byte);
        if value == 0 {
            break;
        }
    }
}

fn cvb_push_section(cvb_module: &mut Vec<u8>, id: u8, payload: &[u8]) {
    cvb_module.push(id);
    cvb_push_u32(cvb_module, payload.len() as u32);
    cvb_module.extend_from_slice(payload);
}

fn cvb_module(param: u8, instructions: &[u8]) -> Vec<u8> {
    let mut bytes = vec![0x00, 0x61, 0x73, 0x6d, 0x01, 0x00, 0x00, 0x00];
    cvb_push_section(&mut bytes, 1, &[0x01, 0x60, 0x01, param, 0x01, CVB_I32]);
    cvb_push_section(&mut bytes, 3, &[0x01, 0x00]);
    cvb_push_section(&mut bytes, 7, &[0x01, 0x03, b'r', b'u', b'n', 0x00, 0x00]);

    let mut body = vec![0x00];
    body.extend_from_slice(instructions);
    body.push(0x0b);
    let mut code = vec![0x01];
    cvb_push_u32(&mut code, body.len() as u32);
    code.extend(body);
    cvb_push_section(&mut bytes, 10, &code);
    bytes
}




fn cvb_assert_unreachable_stack_polymorphism(opcode: u8) {
    let instructions = [
        0x02, 0x40, // block
        0x0c, 0x00, // br 0: the comparison below is unreachable
        opcode, 0x0b, // end block
        0x41, 0x00, // final i32 result
    ];
    let bytes = cvb_module(CVB_I32, &instructions);
    let mut instance = Instance::new(parse_module(&bytes).expect("fixture must parse"))
        .expect("unreachable comparison must validate polymorphically");
    assert_eq!(
        instance
            .invoke_export("run", &[Value::I32(1)])
            .expect("execution must not trap"),
        Some(Value::I32(0))
    );
}

#[test]
fn comparisons_obey_unreachable_stack_polymorphism_for_every_admitted_opcode() {
    for opcode in CVB_I32_EQZ {
        cvb_assert_unreachable_stack_polymorphism(opcode);
    }
    for opcode in CVB_I32_COMPARE {
        cvb_assert_unreachable_stack_polymorphism(opcode);
    }
    for opcode in CVB_I64_EQZ {
        cvb_assert_unreachable_stack_polymorphism(opcode);
    }
    for opcode in CVB_I64_COMPARE {
        cvb_assert_unreachable_stack_polymorphism(opcode);
    }
    for opcode in CVB_F32_COMPARE {
        cvb_assert_unreachable_stack_polymorphism(opcode);
    }
    for opcode in CVB_F64_COMPARE {
        cvb_assert_unreachable_stack_polymorphism(opcode);
    }
}

// ---- Float-to-integer truncations and integer-to-float conversions.
const CC_I32: u8 = 0x7f;
const CC_I64: u8 = 0x7e;
const CC_F32: u8 = 0x7d;
const CC_F64: u8 = 0x7c;

fn cc_push_u32(bytes: &mut Vec<u8>, mut value: u32) {
    loop {
        let mut byte = (value & 0x7f) as u8;
        value >>= 7;
        if value != 0 {
            byte |= 0x80;
        }
        bytes.push(byte);
        if value == 0 {
            break;
        }
    }
}

fn cc_push_section(cc_module: &mut Vec<u8>, id: u8, payload: &[u8]) {
    cc_module.push(id);
    cc_push_u32(cc_module, payload.len() as u32);
    cc_module.extend_from_slice(payload);
}

fn cc_module(param: u8, result: u8, instructions: &[u8]) -> Vec<u8> {
    let mut bytes = vec![0x00, 0x61, 0x73, 0x6d, 0x01, 0x00, 0x00, 0x00];
    cc_push_section(&mut bytes, 1, &[0x01, 0x60, 0x01, param, 0x01, result]);
    cc_push_section(&mut bytes, 3, &[0x01, 0x00]);
    cc_push_section(&mut bytes, 7, &[0x01, 0x03, b'r', b'u', b'n', 0x00, 0x00]);
    let mut body = vec![0x00];
    body.extend_from_slice(instructions);
    body.push(0x0b);
    let mut code = vec![0x01];
    cc_push_u32(&mut code, body.len() as u32);
    code.extend(body);
    cc_push_section(&mut bytes, 10, &code);
    bytes
}

fn cc_invoke(param: u8, result: u8, opcode: u8, value: Value) -> Result<Value, RuntimeError> {
    let bytes = cc_module(param, result, &[0x20, 0x00, opcode]);
    let mut instance = Instance::new(parse_module(&bytes).unwrap()).unwrap();
    instance
        .invoke_export("run", &[value])
        .map(|value| value.unwrap())
}

#[test]
fn signed_truncations_round_toward_zero_for_both_widths() {
    assert_eq!(
        cc_invoke(CC_F32, CC_I32, 0xa8, f32v(42.9)).unwrap(),
        Value::I32(42)
    );
    assert_eq!(
        cc_invoke(CC_F64, CC_I32, 0xaa, f64v(-42.9)).unwrap(),
        Value::I32(-42)
    );
    assert_eq!(
        cc_invoke(CC_F32, CC_I64, 0xae, f32v(123_456.75)).unwrap(),
        Value::I64(123_456)
    );
    assert_eq!(
        cc_invoke(CC_F64, CC_I64, 0xb0, f64v(-123_456.75)).unwrap(),
        Value::I64(-123_456)
    );
}

#[test]
fn unsigned_truncations_accept_negative_fractions_that_truncate_to_zero() {
    assert_eq!(
        cc_invoke(CC_F32, CC_I32, 0xa9, f32v(-0.75)).unwrap(),
        Value::I32(0)
    );
    assert_eq!(
        cc_invoke(CC_F64, CC_I32, 0xab, f64v(-0.999)).unwrap(),
        Value::I32(0)
    );
    assert_eq!(
        cc_invoke(CC_F32, CC_I64, 0xaf, f32v(-0.5)).unwrap(),
        Value::I64(0)
    );
    assert_eq!(
        cc_invoke(CC_F64, CC_I64, 0xb1, f64v(-0.999_999)).unwrap(),
        Value::I64(0)
    );
}

#[test]
fn nan_truncations_report_invalid_conversion() {
    for (opcode, param, result, value) in [
        (0xa8, CC_F32, CC_I32, f32v(f32::NAN)),
        (0xa9, CC_F32, CC_I32, f32v(f32::NAN)),
        (0xaa, CC_F64, CC_I32, f64v(f64::NAN)),
        (0xab, CC_F64, CC_I32, f64v(f64::NAN)),
        (0xae, CC_F32, CC_I64, f32v(f32::NAN)),
        (0xaf, CC_F32, CC_I64, f32v(f32::NAN)),
        (0xb0, CC_F64, CC_I64, f64v(f64::NAN)),
        (0xb1, CC_F64, CC_I64, f64v(f64::NAN)),
    ] {
        assert!(matches!(
            cc_invoke(param, result, opcode, value),
            Err(RuntimeError::InvalidConversionToInteger)
        ));
    }
}

#[test]
fn infinities_and_out_of_range_values_report_integer_overflow() {
    for (opcode, param, result, value) in [
        (0xa8, CC_F32, CC_I32, f32v(f32::INFINITY)),
        (0xa9, CC_F32, CC_I32, f32v(f32::NEG_INFINITY)),
        (0xaa, CC_F64, CC_I32, f64v(f64::INFINITY)),
        (0xab, CC_F64, CC_I32, f64v(f64::NEG_INFINITY)),
        (0xae, CC_F32, CC_I64, f32v(f32::INFINITY)),
        (0xaf, CC_F32, CC_I64, f32v(f32::NEG_INFINITY)),
        (0xb0, CC_F64, CC_I64, f64v(f64::INFINITY)),
        (0xb1, CC_F64, CC_I64, f64v(f64::NEG_INFINITY)),
    ] {
        assert!(matches!(
            cc_invoke(param, result, opcode, value),
            Err(RuntimeError::IntegerOverflow)
        ));
    }
}

#[test]
fn i32_truncation_boundaries_are_exact() {
    assert_eq!(
        cc_invoke(CC_F64, CC_I32, 0xaa, f64v(-2_147_483_648.0)).unwrap(),
        Value::I32(i32::MIN)
    );
    assert_eq!(
        cc_invoke(CC_F64, CC_I32, 0xab, f64v(4_294_967_295.0)).unwrap(),
        Value::I32(-1)
    );
    assert!(matches!(
        cc_invoke(CC_F64, CC_I32, 0xaa, f64v(2_147_483_648.0)),
        Err(RuntimeError::IntegerOverflow)
    ));
    assert!(matches!(
        cc_invoke(CC_F64, CC_I32, 0xab, f64v(4_294_967_296.0)),
        Err(RuntimeError::IntegerOverflow)
    ));
    assert!(matches!(
        cc_invoke(CC_F64, CC_I32, 0xab, f64v(-1.0)),
        Err(RuntimeError::IntegerOverflow)
    ));

    assert_eq!(
        cc_invoke(CC_F32, CC_I32, 0xa8, f32v(2_147_483_520.0)).unwrap(),
        Value::I32(2_147_483_520)
    );
    assert!(matches!(
        cc_invoke(CC_F32, CC_I32, 0xa8, f32v(2_147_483_648.0)),
        Err(RuntimeError::IntegerOverflow)
    ));
    assert_eq!(
        cc_invoke(CC_F32, CC_I32, 0xa9, f32v(4_294_967_040.0)).unwrap(),
        Value::I32(-256)
    );
    assert!(matches!(
        cc_invoke(CC_F32, CC_I32, 0xa9, f32v(4_294_967_296.0)),
        Err(RuntimeError::IntegerOverflow)
    ));
}

#[test]
fn i64_truncation_boundaries_are_exact() {
    assert_eq!(
        cc_invoke(CC_F64, CC_I64, 0xb0, f64v(-9_223_372_036_854_775_808.0)).unwrap(),
        Value::I64(i64::MIN)
    );
    assert_eq!(
        cc_invoke(CC_F64, CC_I64, 0xb0, f64v(9_223_372_036_854_774_784.0)).unwrap(),
        Value::I64(9_223_372_036_854_774_784)
    );
    assert!(matches!(
        cc_invoke(CC_F64, CC_I64, 0xb0, f64v(9_223_372_036_854_775_808.0)),
        Err(RuntimeError::IntegerOverflow)
    ));

    assert_eq!(
        cc_invoke(CC_F64, CC_I64, 0xb1, f64v(18_446_744_073_709_549_568.0)).unwrap(),
        Value::I64(-2048)
    );
    assert!(matches!(
        cc_invoke(CC_F64, CC_I64, 0xb1, f64v(18_446_744_073_709_551_616.0)),
        Err(RuntimeError::IntegerOverflow)
    ));
    assert!(matches!(
        cc_invoke(CC_F64, CC_I64, 0xb1, f64v(-1.0)),
        Err(RuntimeError::IntegerOverflow)
    ));
}

#[test]
fn integer_to_float_conversions_preserve_signed_and_unsigned_views() {
    assert_eq!(
        cc_invoke(CC_I32, CC_F32, 0xb2, Value::I32(-123)).unwrap(),
        f32v(-123.0)
    );
    assert_eq!(
        cc_invoke(CC_I32, CC_F32, 0xb3, Value::I32(-1)).unwrap(),
        f32v(u32::MAX as f32)
    );
    assert_eq!(
        cc_invoke(CC_I64, CC_F32, 0xb4, Value::I64(-123_456_789)).unwrap(),
        f32v(-123_456_789i64 as f32)
    );
    assert_eq!(
        cc_invoke(CC_I64, CC_F32, 0xb5, Value::I64(-1)).unwrap(),
        f32v(u64::MAX as f32)
    );

    assert_eq!(
        cc_invoke(CC_I32, CC_F64, 0xb7, Value::I32(-123)).unwrap(),
        f64v(-123.0)
    );
    assert_eq!(
        cc_invoke(CC_I32, CC_F64, 0xb8, Value::I32(-1)).unwrap(),
        f64v(u32::MAX as f64)
    );
    assert_eq!(
        cc_invoke(CC_I64, CC_F64, 0xb9, Value::I64(-123_456_789)).unwrap(),
        f64v(-123_456_789.0)
    );
    assert_eq!(
        cc_invoke(CC_I64, CC_F64, 0xba, Value::I64(-1)).unwrap(),
        f64v(u64::MAX as f64)
    );
}

#[test]
fn integer_to_float_rounding_uses_ties_to_even() {
    assert_eq!(
        cc_invoke(CC_I32, CC_F32, 0xb2, Value::I32(16_777_217)).unwrap(),
        f32v(16_777_216.0)
    );
    assert_eq!(
        cc_invoke(CC_I32, CC_F32, 0xb2, Value::I32(-16_777_217)).unwrap(),
        f32v(-16_777_216.0)
    );
    assert_eq!(
        cc_invoke(CC_I64, CC_F64, 0xb9, Value::I64(9_007_199_254_740_993)).unwrap(),
        f64v(9_007_199_254_740_992.0)
    );
}

#[test]
fn conversions_execute_inside_structured_control() {
    let bytes = cc_module(CC_F64, CC_I32, &[0x02, CC_I32, 0x20, 0x00, 0xaa, 0x0b]);
    let mut instance = Instance::new(parse_module(&bytes).unwrap()).unwrap();
    assert_eq!(
        instance.invoke_export("run", &[f64v(-7.9)]).unwrap(),
        Some(Value::I32(-7))
    );
}

// ---- memory.copy.
fn bmc_push_section(module: &mut Vec<u8>, id: u8, payload: &[u8]) {
    assert!(payload.len() < 128);
    module.push(id);
    module.push(payload.len() as u8);
    module.extend(payload);
}

fn bmc_module_with_bodies(bodies: &[Vec<u8>], exports: &[(&str, u8)]) -> Vec<u8> {
    let mut bytes = vec![0x00, 0x61, 0x73, 0x6d, 0x01, 0x00, 0x00, 0x00];
    bmc_push_section(&mut bytes, 1, &[0x01, 0x60, 0x00, 0x01, 0x7f]);
    let mut functions = vec![bodies.len() as u8];
    functions.extend(std::iter::repeat(0x00).take(bodies.len()));
    bmc_push_section(&mut bytes, 3, &functions);
    bmc_push_section(&mut bytes, 5, &[0x01, 0x00, 0x01]);
    let mut export_payload = vec![exports.len() as u8];
    for (name, index) in exports {
        export_payload.push(name.len() as u8);
        export_payload.extend(name.as_bytes());
        export_payload.push(0x00);
        export_payload.push(*index);
    }
    bmc_push_section(&mut bytes, 7, &export_payload);
    let mut code = vec![bodies.len() as u8];
    for body in bodies {
        code.push((body.len() + 1) as u8);
        code.push(0x00);
        code.extend(body);
    }
    bmc_push_section(&mut bytes, 10, &code);
    bytes
}

fn bmc_store8(address: u8, value: u8, body: &mut Vec<u8>) {
    body.extend([0x41, address, 0x41, value, 0x3a, 0x00, 0x00]);
}

#[test]
fn memory_copy_uses_memmove_semantics_for_overlap() {
    let mut body = Vec::new();
    for (address, value) in [(0, 10), (1, 20), (2, 30), (3, 40), (4, 50), (5, 60)] {
        bmc_store8(address, value, &mut body);
    }
    body.extend([
        0x41, 0x02, 0x41, 0x00, 0x41, 0x06, 0xfc, 0x0a, 0x00, 0x00, 0x41, 0x07, 0x2d, 0x00, 0x00,
        0x0b,
    ]);
    let bytes = bmc_module_with_bodies(&[body], &[("run", 0)]);
    let mut instance = Instance::new(parse_module(&bytes).unwrap()).unwrap();
    assert_eq!(
        instance.invoke_export("run", &[]).unwrap(),
        Some(Value::I32(60))
    );
}

#[test]
fn memory_copy_preflights_destination_before_mutation() {
    let trap = vec![
        0x41, 0xff, 0xff, 0x03, 0x41, 0x00, 0x41, 0x02, 0xfc, 0x0a, 0x00, 0x00, 0x41, 0x00, 0x0b,
    ];
    let tail = vec![0x41, 0xff, 0xff, 0x03, 0x2d, 0x00, 0x00, 0x0b];
    let bytes = bmc_module_with_bodies(&[trap, tail], &[("trap", 0), ("tail", 1)]);
    let mut instance = Instance::new(parse_module(&bytes).unwrap()).unwrap();
    assert!(matches!(
        instance.invoke_export("trap", &[]),
        Err(RuntimeError::MemoryOutOfBounds { .. })
    ));
    assert_eq!(
        instance.invoke_export("tail", &[]).unwrap(),
        Some(Value::I32(0))
    );
}

#[test]
fn memory_copy_rejects_nonzero_memory_indices() {
    let body = vec![
        0x41, 0x00, 0x41, 0x00, 0x41, 0x00, 0xfc, 0x0a, 0x01, 0x00, 0x41, 0x00, 0x0b,
    ];
    let bytes = bmc_module_with_bodies(&[body], &[("run", 0)]);
    assert!(Instance::new(parse_module(&bytes).unwrap()).is_err());
}

// ---- memory.fill.
const BMF_I32: u8 = 0x7f;

fn bmf_push_u32(bytes: &mut Vec<u8>, mut value: u32) {
    loop {
        let mut byte = (value & 0x7f) as u8;
        value >>= 7;
        if value != 0 {
            byte |= 0x80;
        }
        bytes.push(byte);
        if value == 0 {
            break;
        }
    }
}

fn bmf_push_name(bytes: &mut Vec<u8>, name: &str) {
    bmf_push_u32(bytes, name.len() as u32);
    bytes.extend_from_slice(name.as_bytes());
}

fn bmf_push_section(bmf_module: &mut Vec<u8>, id: u8, payload: &[u8]) {
    bmf_module.push(id);
    bmf_push_u32(bmf_module, payload.len() as u32);
    bmf_module.extend_from_slice(payload);
}

fn bmf_module(imported_memory: bool, result: Option<u8>, instructions: &[u8]) -> Vec<u8> {
    let mut bytes = vec![0x00, 0x61, 0x73, 0x6d, 0x01, 0x00, 0x00, 0x00];
    let mut ty = vec![0x01, 0x60, 0x00];
    match result {
        Some(result) => ty.extend([0x01, result]),
        None => ty.push(0x00),
    }
    bmf_push_section(&mut bytes, 1, &ty);
    if imported_memory {
        let mut imports = vec![0x01];
        bmf_push_name(&mut imports, "env");
        bmf_push_name(&mut imports, "mem");
        imports.extend([0x02, 0x01, 0x01, 0x01]);
        bmf_push_section(&mut bytes, 2, &imports);
    }
    bmf_push_section(&mut bytes, 3, &[0x01, 0x00]);
    if !imported_memory {
        bmf_push_section(&mut bytes, 5, &[0x01, 0x01, 0x01, 0x01]);
    }
    bmf_push_section(&mut bytes, 7, &[0x01, 0x03, b'r', b'u', b'n', 0x00, 0x00]);
    let mut body = vec![0x00];
    body.extend_from_slice(instructions);
    body.push(0x0b);
    let mut code = vec![0x01];
    bmf_push_u32(&mut code, body.len() as u32);
    code.extend(body);
    bmf_push_section(&mut bytes, 10, &code);
    bytes
}

#[test]
fn memory_fill_uses_low_byte_of_value() {
    let bytes = bmf_module(
        false,
        Some(BMF_I32),
        &[
            0x41, 0x03, 0x41, 0x7f, 0x41, 0x04, 0xfc, 0x0b, 0x00, 0x41, 0x06, 0x2d, 0x00, 0x00,
        ],
    );
    let mut instance = Instance::new(parse_module(&bytes).unwrap()).unwrap();
    assert_eq!(
        instance.invoke_export("run", &[]).unwrap(),
        Some(Value::I32(255))
    );
}

#[test]
fn memory_fill_preflights_destination_before_mutation() {
    let bytes = bmf_module(
        true,
        None,
        &[
            0x41, 0xff, 0xff, 0x03, 0x41, 0x2a, 0x41, 0x02, 0xfc, 0x0b, 0x00,
        ],
    );
    let memory = MemoryHandle::new(1, Some(1)).unwrap();
    memory.write(65_535, &[0x11]).unwrap();
    let mut hosts = HostRegistry::new();
    hosts.register_memory("env", "mem", memory.clone()).unwrap();
    let mut instance = Instance::with_hosts(parse_module(&bytes).unwrap(), hosts).unwrap();
    assert!(matches!(
        instance.invoke_export("run", &[]),
        Err(RuntimeError::MemoryOutOfBounds { .. })
    ));
    assert_eq!(memory.read(65_535, 1).unwrap(), vec![0x11]);
}

#[test]
fn memory_fill_updates_imported_memory_backing() {
    let bytes = bmf_module(
        true,
        None,
        &[0x41, 0x08, 0x41, 0x2a, 0x41, 0x03, 0xfc, 0x0b, 0x00],
    );
    let memory = MemoryHandle::new(1, Some(1)).unwrap();
    let mut hosts = HostRegistry::new();
    hosts.register_memory("env", "mem", memory.clone()).unwrap();
    let mut instance = Instance::with_hosts(parse_module(&bytes).unwrap(), hosts).unwrap();
    instance.invoke_export("run", &[]).unwrap();
    assert_eq!(memory.read(8, 3).unwrap(), vec![0x2a; 3]);
}

#[test]
fn memory_fill_rejects_nonzero_memory_index() {
    let bytes = bmf_module(
        false,
        None,
        &[0x41, 0x00, 0x41, 0x00, 0x41, 0x00, 0xfc, 0x0b, 0x01],
    );
    assert!(Instance::new(parse_module(&bytes).unwrap()).is_err());
}

// ---- table.size.
fn bts_u32leb(out: &mut Vec<u8>, mut value: u32) {
    loop {
        let mut byte = (value & 0x7f) as u8;
        value >>= 7;
        if value != 0 {
            byte |= 0x80;
        }
        out.push(byte);
        if value == 0 {
            break;
        }
    }
}

fn bts_name(out: &mut Vec<u8>, value: &str) {
    bts_u32leb(out, value.len() as u32);
    out.extend_from_slice(value.as_bytes());
}

fn bts_section(bts_module: &mut Vec<u8>, id: u8, payload: &[u8]) {
    bts_module.push(id);
    bts_u32leb(bts_module, payload.len() as u32);
    bts_module.extend_from_slice(payload);
}

fn bts_module(table_index: u32, minimum: u8) -> Vec<u8> {
    let mut bts_module = b"\0asm\x01\0\0\0".to_vec();
    bts_section(&mut bts_module, 1, &[1, 0x60, 0, 1, 0x7f]);

    let mut imports = vec![1];
    bts_name(&mut imports, "env");
    bts_name(&mut imports, "tab");
    imports.extend([1, 0x70, 0, minimum]);
    bts_section(&mut bts_module, 2, &imports);

    bts_section(&mut bts_module, 3, &[1, 0]);
    bts_section(&mut bts_module, 7, &[1, 3, b'r', b'u', b'n', 0, 0]);

    let mut body = vec![0, 0xfc, 16];
    bts_u32leb(&mut body, table_index);
    body.push(0x0b);
    let mut code = vec![1];
    bts_u32leb(&mut code, body.len() as u32);
    code.extend_from_slice(&body);
    bts_section(&mut bts_module, 10, &code);
    bts_module
}

fn bts_hosts(table: &TableHandle) -> HostRegistry {
    let mut bts_hosts = HostRegistry::new();
    bts_hosts.register_table("env", "tab", table.clone()).unwrap();
    bts_hosts
}

#[test]
fn reports_imported_table_size() {
    let table = TableHandle::new(4, Some(8)).unwrap();
    let mut vm = Instance::with_hosts(parse_module(&bts_module(0, 4)).unwrap(), bts_hosts(&table)).unwrap();
    assert_eq!(vm.invoke_export("run", &[]).unwrap(), Some(Value::I32(4)));
}

#[test]
fn reports_zero_length_table() {
    let table = TableHandle::new(0, Some(8)).unwrap();
    let mut vm = Instance::with_hosts(parse_module(&bts_module(0, 0)).unwrap(), bts_hosts(&table)).unwrap();
    assert_eq!(vm.invoke_export("run", &[]).unwrap(), Some(Value::I32(0)));
}

// ---- table.grow.
fn btg_u32leb(out: &mut Vec<u8>, mut value: u32) {
    loop {
        let mut byte = (value & 0x7f) as u8;
        value >>= 7;
        if value != 0 {
            byte |= 0x80;
        }
        out.push(byte);
        if value == 0 {
            break;
        }
    }
}

fn btg_name(out: &mut Vec<u8>, value: &str) {
    btg_u32leb(out, value.len() as u32);
    out.extend_from_slice(value.as_bytes());
}

fn btg_section(btg_module: &mut Vec<u8>, id: u8, payload: &[u8]) {
    btg_module.push(id);
    btg_u32leb(btg_module, payload.len() as u32);
    btg_module.extend_from_slice(payload);
}

fn btg_module(body: &[u8], table_index: u32, minimum: u8, maximum: u8) -> Vec<u8> {
    let mut btg_module = b"\0asm\x01\0\0\0".to_vec();
    btg_section(&mut btg_module, 1, &[1, 0x60, 0, 1, 0x7f]);

    let mut imports = vec![1];
    btg_name(&mut imports, "env");
    btg_name(&mut imports, "tab");
    imports.extend([1, 0x70, 1, minimum, maximum]);
    btg_section(&mut btg_module, 2, &imports);

    btg_section(&mut btg_module, 3, &[1, 0]);
    btg_section(&mut btg_module, 7, &[1, 3, b'r', b'u', b'n', 0, 0]);

    let mut function_body = vec![0];
    function_body.extend_from_slice(body);
    function_body.extend([0xfc, 15]);
    btg_u32leb(&mut function_body, table_index);
    function_body.push(0x0b);
    let mut code = vec![1];
    btg_u32leb(&mut code, function_body.len() as u32);
    code.extend_from_slice(&function_body);
    btg_section(&mut btg_module, 10, &code);
    btg_module
}

fn btg_hosts(table: &TableHandle) -> HostRegistry {
    let mut btg_hosts = HostRegistry::new();
    btg_hosts.register_table("env", "tab", table.clone()).unwrap();
    btg_hosts
}

#[test]
fn grows_imported_table_with_null_and_returns_previous_size() {
    let table = TableHandle::new(2, Some(4)).unwrap();
    let body = [0xd0, 0x70, 0x41, 0x02];
    let mut vm = Instance::with_hosts(
        parse_module(&btg_module(&body, 0, 2, 4)).unwrap(),
        btg_hosts(&table),
    )
    .unwrap();

    assert_eq!(vm.invoke_export("run", &[]).unwrap(), Some(Value::I32(2)));
    assert_eq!(table.len(), 4);
    assert!(table.get(2).unwrap().is_none());
    assert!(table.get(3).unwrap().is_none());
}

#[test]
fn grows_with_non_null_funcref_initializer() {
    let table = TableHandle::new(1, Some(3)).unwrap();
    let body = [0xd2, 0x00, 0x41, 0x01];
    let mut vm = Instance::with_hosts(
        parse_module(&btg_module(&body, 0, 1, 3)).unwrap(),
        btg_hosts(&table),
    )
    .unwrap();

    assert_eq!(vm.invoke_export("run", &[]).unwrap(), Some(Value::I32(1)));
    assert_eq!(table.len(), 2);
    assert!(table.get(1).unwrap().is_some());
}

#[test]
fn zero_delta_returns_size_without_mutation() {
    let table = TableHandle::new(2, Some(2)).unwrap();
    let body = [0xd0, 0x70, 0x41, 0x00];
    let mut vm = Instance::with_hosts(
        parse_module(&btg_module(&body, 0, 2, 2)).unwrap(),
        btg_hosts(&table),
    )
    .unwrap();

    assert_eq!(vm.invoke_export("run", &[]).unwrap(), Some(Value::I32(2)));
    assert_eq!(table.len(), 2);
}

#[test]
fn maximum_failure_returns_minus_one_and_is_atomic() {
    let table = TableHandle::new(2, Some(2)).unwrap();
    let body = [0xd2, 0x00, 0x41, 0x01];
    let mut vm = Instance::with_hosts(
        parse_module(&btg_module(&body, 0, 2, 2)).unwrap(),
        btg_hosts(&table),
    )
    .unwrap();

    assert_eq!(vm.invoke_export("run", &[]).unwrap(), Some(Value::I32(-1)));
    assert_eq!(table.len(), 2);
    assert!(table.get(0).unwrap().is_none());
    assert!(table.get(1).unwrap().is_none());
}

// ---- memory.init and data.drop.
fn bmi_section(bmi_module: &mut Vec<u8>, id: u8, payload: &[u8]) {
    bmi_module.push(id);
    bmi_module.push(payload.len() as u8);
    bmi_module.extend_from_slice(payload);
}

fn bmi_module(body: &[u8], data: &[u8], declared_count: u8) -> Vec<u8> {
    let mut wasm = b"\0asm\x01\0\0\0".to_vec();
    bmi_section(&mut wasm, 1, &[1, 0x60, 0, 0]);
    bmi_section(&mut wasm, 3, &[1, 0]);
    bmi_section(&mut wasm, 5, &[1, 0, 1]);
    bmi_section(&mut wasm, 7, &[1, 3, b'r', b'u', b'n', 0, 0]);
    bmi_section(&mut wasm, 12, &[declared_count]);
    let mut code = vec![1, (body.len() + 1) as u8, 0];
    code.extend_from_slice(body);
    bmi_section(&mut wasm, 10, &code);
    let mut data_section = vec![1, 1, data.len() as u8];
    data_section.extend_from_slice(data);
    bmi_section(&mut wasm, 11, &data_section);
    wasm
}

#[test]
fn memory_init_copies_passive_data() {
    let body = [0x41, 4, 0x41, 1, 0x41, 3, 0xfc, 8, 0, 0, 0x0b];
    let parsed = parse_module(&bmi_module(&body, b"hello", 1)).unwrap();
    let mut vm = Instance::new(parsed).unwrap();
    vm.invoke_export("run", &[]).unwrap();
    assert_eq!(&vm.memory().unwrap().bytes()[4..7], b"ell");
}

#[test]
fn data_drop_empties_segment_and_traps_followup_init() {
    let body = [0xfc, 9, 0, 0x41, 0, 0x41, 0, 0x41, 1, 0xfc, 8, 0, 0, 0x0b];
    let parsed = parse_module(&bmi_module(&body, b"x", 1)).unwrap();
    let mut vm = Instance::new(parsed).unwrap();
    let error = vm.invoke_export("run", &[]).unwrap_err();
    assert!(matches!(
        error,
        RuntimeError::DataSegmentSourceOutOfBounds { .. }
    ));
    assert_eq!(vm.memory().unwrap().bytes()[0], 0);
}

#[test]
fn bulk_memory_init_drop_source_oob_is_atomic() {
    let body = [0x41, 0, 0x41, 4, 0x41, 2, 0xfc, 8, 0, 0, 0x0b];
    let parsed = parse_module(&bmi_module(&body, b"hello", 1)).unwrap();
    let mut vm = Instance::new(parsed).unwrap();
    assert!(matches!(
        vm.invoke_export("run", &[]),
        Err(RuntimeError::DataSegmentSourceOutOfBounds { .. })
    ));
    assert_eq!(&vm.memory().unwrap().bytes()[0..2], &[0, 0]);
}

// ---- table.copy.
fn btc_u32leb(out: &mut Vec<u8>, mut value: u32) {
    loop {
        let mut byte = (value & 0x7f) as u8;
        value >>= 7;
        if value != 0 {
            byte |= 0x80;
        }
        out.push(byte);
        if value == 0 {
            break;
        }
    }
}
fn btc_name(out: &mut Vec<u8>, value: &str) {
    btc_u32leb(out, value.len() as u32);
    out.extend_from_slice(value.as_bytes());
}
fn btc_section(btc_module: &mut Vec<u8>, id: u8, payload: &[u8]) {
    btc_module.push(id);
    btc_u32leb(btc_module, payload.len() as u32);
    btc_module.extend_from_slice(payload);
}
fn btc_module(body: &[u8]) -> Vec<u8> {
    let mut btc_module = b"\0asm\x01\0\0\0".to_vec();
    btc_section(&mut btc_module, 1, &[1, 0x60, 0, 0]);
    let mut imports = vec![1];
    btc_name(&mut imports, "env");
    btc_name(&mut imports, "tab");
    imports.extend([1, 0x70, 0, 4]);
    btc_section(&mut btc_module, 2, &imports);
    btc_section(&mut btc_module, 3, &[1, 0]);
    btc_section(&mut btc_module, 7, &[1, 3, b'r', b'u', b'n', 0, 0]);
    btc_section(&mut btc_module, 9, &[1, 1, 0, 1, 0]);
    let mut code = vec![1, (body.len() + 1) as u8, 0];
    code.extend_from_slice(body);
    btc_section(&mut btc_module, 10, &code);
    btc_module
}
fn btc_hosts(table: &TableHandle) -> HostRegistry {
    let mut btc_hosts = HostRegistry::new();
    btc_hosts.register_table("env", "tab", table.clone()).unwrap();
    btc_hosts
}
fn btc_init(destination: u8, body: &mut Vec<u8>) {
    body.extend([0x41, destination, 0x41, 0, 0x41, 1, 0xfc, 12, 0, 0]);
}
fn btc_copy(destination: u8, source: u8, length: u8, body: &mut Vec<u8>) {
    body.extend([
        0x41,
        destination,
        0x41,
        source,
        0x41,
        length,
        0xfc,
        14,
        0,
        0,
    ]);
}
fn btc_present(table: &TableHandle) -> Vec<bool> {
    (0..table.len())
        .map(|i| table.get(i).unwrap().is_some())
        .collect()
}

#[test]
fn forward_overlap_is_memmove_safe() {
    let mut body = Vec::new();
    btc_init(0, &mut body);
    btc_init(2, &mut body);
    btc_copy(1, 0, 3, &mut body);
    body.push(0x0b);
    let table = TableHandle::new(4, Some(4)).unwrap();
    let mut vm =
        Instance::with_hosts(parse_module(&btc_module(&body)).unwrap(), btc_hosts(&table)).unwrap();
    vm.invoke_export("run", &[]).unwrap();
    assert_eq!(btc_present(&table), vec![true, true, false, true]);
}
#[test]
fn backward_overlap_is_memmove_safe() {
    let mut body = Vec::new();
    btc_init(1, &mut body);
    btc_init(3, &mut body);
    btc_copy(0, 1, 3, &mut body);
    body.push(0x0b);
    let table = TableHandle::new(4, Some(4)).unwrap();
    let mut vm =
        Instance::with_hosts(parse_module(&btc_module(&body)).unwrap(), btc_hosts(&table)).unwrap();
    vm.invoke_export("run", &[]).unwrap();
    assert_eq!(btc_present(&table), vec![true, false, true, true]);
}
#[test]
fn destination_oob_traps_atomically() {
    let mut body = Vec::new();
    btc_init(0, &mut body);
    btc_copy(3, 0, 2, &mut body);
    body.push(0x0b);
    let table = TableHandle::new(4, Some(4)).unwrap();
    let mut vm =
        Instance::with_hosts(parse_module(&btc_module(&body)).unwrap(), btc_hosts(&table)).unwrap();
    assert!(matches!(
        vm.invoke_export("run", &[]),
        Err(RuntimeError::TableElementOutOfBounds(_))
    ));
    assert_eq!(btc_present(&table), vec![true, false, false, false]);
}
#[test]
fn source_oob_traps_atomically() {
    let mut body = Vec::new();
    btc_init(0, &mut body);
    btc_copy(1, 3, 2, &mut body);
    body.push(0x0b);
    let table = TableHandle::new(4, Some(4)).unwrap();
    let mut vm =
        Instance::with_hosts(parse_module(&btc_module(&body)).unwrap(), btc_hosts(&table)).unwrap();
    assert!(matches!(
        vm.invoke_export("run", &[]),
        Err(RuntimeError::TableElementOutOfBounds(_))
    ));
    assert_eq!(btc_present(&table), vec![true, false, false, false]);
}

// ---- table.fill.
fn btf_u32leb(out: &mut Vec<u8>, mut value: u32) { loop { let mut b=(value&0x7f) as u8; value >>= 7; if value!=0 { b|=0x80; } out.push(b); if value==0 { break; } } }
fn btf_name(out:&mut Vec<u8>, s:&str){btf_u32leb(out,s.len() as u32);out.extend_from_slice(s.as_bytes());}
fn btf_section(m:&mut Vec<u8>,id:u8,p:&[u8]){m.push(id);btf_u32leb(m,p.len() as u32);m.extend_from_slice(p);}
fn btf_module(body:&[u8])->Vec<u8>{
 let mut m=b"\0asm\x01\0\0\0".to_vec(); btf_section(&mut m,1,&[1,0x60,0,0]);
 let mut i=vec![1]; btf_name(&mut i,"env"); btf_name(&mut i,"tab"); i.extend([1,0x70,0,4]); btf_section(&mut m,2,&i);
 btf_section(&mut m,3,&[1,0]); btf_section(&mut m,7,&[1,3,b'r',b'u',b'n',0,0]); btf_section(&mut m,9,&[1,1,0,1,0]);
 let mut c=vec![1,(body.len()+1) as u8,0];c.extend_from_slice(body);btf_section(&mut m,10,&c);m
}
fn btf_hosts(t:&TableHandle)->HostRegistry{let mut h=HostRegistry::new();h.register_table("env","tab",t.clone()).unwrap();h}
fn btf_init(dst:u8,b:&mut Vec<u8>){b.extend([0x41,dst,0x41,0,0x41,1,0xfc,12,0,0]);}
fn btf_fill(dst:u8,len:u8,b:&mut Vec<u8>){b.extend([0x41,dst,0xd0,0x70,0x41,len,0xfc,17,0]);}
fn btf_present(t:&TableHandle)->Vec<bool>{(0..t.len()).map(|i|t.get(i).unwrap().is_some()).collect()}

#[test] fn clears_range_in_imported_table(){let mut b=vec![];btf_init(0,&mut b);btf_init(1,&mut b);btf_init(2,&mut b);btf_fill(1,2,&mut b);b.push(0x0b);let t=TableHandle::new(4,Some(4)).unwrap();let mut vm=Instance::with_hosts(parse_module(&btf_module(&b)).unwrap(),btf_hosts(&t)).unwrap();vm.invoke_export("run",&[]).unwrap();assert_eq!(btf_present(&t),vec![true,false,false,false]);}
#[test] fn zero_length_at_end_is_valid(){let mut b=vec![];btf_fill(4,0,&mut b);b.push(0x0b);let t=TableHandle::new(4,Some(4)).unwrap();let mut vm=Instance::with_hosts(parse_module(&btf_module(&b)).unwrap(),btf_hosts(&t)).unwrap();vm.invoke_export("run",&[]).unwrap();assert_eq!(btf_present(&t),vec![false;4]);}
#[test] fn oob_fill_is_atomic(){let mut b=vec![];btf_init(0,&mut b);btf_fill(3,2,&mut b);b.push(0x0b);let t=TableHandle::new(4,Some(4)).unwrap();let mut vm=Instance::with_hosts(parse_module(&btf_module(&b)).unwrap(),btf_hosts(&t)).unwrap();assert!(matches!(vm.invoke_export("run",&[]),Err(RuntimeError::TableElementOutOfBounds(_))));assert_eq!(btf_present(&t),vec![true,false,false,false]);}

// ---- table.init and elem.drop.
fn bti_u32leb(out: &mut Vec<u8>, mut v: u32) {
    loop {
        let mut b = (v & 0x7f) as u8;
        v >>= 7;
        if v != 0 {
            b |= 0x80;
        }
        out.push(b);
        if v == 0 {
            break;
        }
    }
}
fn bti_name(out: &mut Vec<u8>, s: &str) {
    bti_u32leb(out, s.len() as u32);
    out.extend_from_slice(s.as_bytes());
}
fn bti_section(m: &mut Vec<u8>, id: u8, p: &[u8]) {
    m.push(id);
    bti_u32leb(m, p.len() as u32);
    m.extend_from_slice(p);
}
fn bti_module(body: &[u8]) -> Vec<u8> {
    let mut m = b"\0asm\x01\0\0\0".to_vec();
    bti_section(&mut m, 1, &[1, 0x60, 0, 0]);
    let mut i = vec![1];
    bti_name(&mut i, "env");
    bti_name(&mut i, "tab");
    i.extend([1, 0x70, 0, 2]);
    bti_section(&mut m, 2, &i);
    bti_section(&mut m, 3, &[1, 0]);
    bti_section(&mut m, 7, &[1, 3, b'r', b'u', b'n', 0, 0]);
    bti_section(&mut m, 9, &[1, 1, 0, 1, 0]);
    let mut c = vec![1, (body.len() + 1) as u8, 0];
    c.extend_from_slice(body);
    bti_section(&mut m, 10, &c);
    m
}
fn bti_hosts(table: &TableHandle) -> HostRegistry {
    let mut h = HostRegistry::new();
    h.register_table("env", "tab", table.clone()).unwrap();
    h
}

#[test]
fn table_init_populates_imported_table() {
    let body = [0x41, 0, 0x41, 0, 0x41, 1, 0xfc, 12, 0, 0, 0x0b];
    let table = TableHandle::new(2, Some(2)).unwrap();
    let mut vm =
        Instance::with_hosts(parse_module(&bti_module(&body)).unwrap(), bti_hosts(&table)).unwrap();
    vm.invoke_export("run", &[]).unwrap();
    assert!(table.get(0).unwrap().is_some());
    assert!(table.get(1).unwrap().is_none());
}
#[test]
fn elem_drop_traps_followup_nonempty_init_atomically() {
    let body = [0xfc, 13, 0, 0x41, 0, 0x41, 0, 0x41, 1, 0xfc, 12, 0, 0, 0x0b];
    let table = TableHandle::new(2, Some(2)).unwrap();
    let mut vm =
        Instance::with_hosts(parse_module(&bti_module(&body)).unwrap(), bti_hosts(&table)).unwrap();
    assert!(matches!(
        vm.invoke_export("run", &[]),
        Err(RuntimeError::ElementSegmentSourceOutOfBounds { .. })
    ));
    assert!(table.get(0).unwrap().is_none());
}
#[test]
fn bulk_table_init_drop_source_oob_is_atomic() {
    let body = [0x41, 0, 0x41, 1, 0x41, 1, 0xfc, 12, 0, 0, 0x0b];
    let table = TableHandle::new(2, Some(2)).unwrap();
    let mut vm =
        Instance::with_hosts(parse_module(&bti_module(&body)).unwrap(), bti_hosts(&table)).unwrap();
    assert!(matches!(
        vm.invoke_export("run", &[]),
        Err(RuntimeError::ElementSegmentSourceOutOfBounds { .. })
    ));
    assert!(table.get(0).unwrap().is_none());
}
#[test]
fn destination_oob_is_atomic() {
    let body = [0x41, 2, 0x41, 0, 0x41, 1, 0xfc, 12, 0, 0, 0x0b];
    let table = TableHandle::new(2, Some(2)).unwrap();
    let mut vm =
        Instance::with_hosts(parse_module(&bti_module(&body)).unwrap(), bti_hosts(&table)).unwrap();
    assert!(matches!(
        vm.invoke_export("run", &[]),
        Err(RuntimeError::TableElementOutOfBounds(_))
    ));
    assert!(table.get(0).unwrap().is_none() && table.get(1).unwrap().is_none());
}

// ---- Block types whose signed LEB128 index never ends or overflows.
fn s33f_module(opener: u8, immediate: &[u8]) -> Vec<u8> {
    let mut body = vec![0x00];
    if opener == 0x04 {
        body.extend([0x41, 0x00]);
    }
    body.push(opener);
    body.extend_from_slice(immediate);
    body.push(0x0b);
    let mut module = vec![0x00, 0x61, 0x73, 0x6d, 0x01, 0x00, 0x00, 0x00];
    module.extend([0x01, 0x04, 0x01, 0x60, 0x00, 0x00]);
    module.extend([0x03, 0x02, 0x01, 0x00]);
    let mut code = vec![0x01, body.len() as u8];
    code.extend(body);
    module.push(0x0a);
    module.push(code.len() as u8);
    module.extend(code);
    module
}

#[test]
fn unterminated_signed_33_blocktypes_fail_closed() {
    for opener in [0x02, 0x03, 0x04] {
        let module = parse_module(&s33f_module(opener, &[0x80, 0x80, 0x80, 0x80, 0x80])).unwrap();
        let error = Instance::new(module).expect_err("an unterminated block type refuses the module");
        assert!(matches!(error, RuntimeError::Decode(ParseError::InvalidLeb128)));
    }
}

#[test]
fn overflowing_signed_33_blocktypes_fail_closed() {
    for opener in [0x02, 0x03, 0x04] {
        let module = parse_module(&s33f_module(opener, &[0x80, 0x80, 0x80, 0x80, 0x20])).unwrap();
        let error = Instance::new(module).expect_err("an overflowing block type refuses the module");
        assert!(matches!(error, RuntimeError::Decode(ParseError::Leb128Overflow)));
    }
}
