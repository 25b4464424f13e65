use mini_wasm::instantiate::RuntimeLimits;
use mini_wasm::runtime_error::RuntimeError;
use mini_wasm::setup::instantiate;
use mini_wasm::{DataMode, DataSegment, FuncType, FunctionBody, Limits, MemoryType, Module, TableType};

fn module(code: Vec<u8>, memory_min: u32, data_offset: u64) -> Module {
    Module {
        types: vec![FuncType { params: vec![], results: vec![] }],
        function_type_indices: vec![0],
        memories: vec![MemoryType { limits: Limits { min: memory_min, max: None }, memory64: false }],
        code: vec![FunctionBody { locals: vec![], code }],
        data: vec![DataSegment { mode: DataMode::Active { memory_index: 0, offset: data_offset }, bytes: vec![1, 2] }],
        ..Module::default()
    }
}

fn capped(pages: u32) -> RuntimeLimits {
    RuntimeLimits { max_memory_pages: pages, ..RuntimeLimits::default() }
}

#[test]
fn control_map_errors_come_before_memory_errors() {
    let error = instantiate(module(vec![0xd0, 0x0b], 5, 0), None, None, Vec::new(), capped(2), 1)
        .err()
        .expect("an unsupported opcode refuses the module");
    assert!(matches!(error, RuntimeError::UnsupportedOpcode(0xd0)));
}

#[test]
fn memory_errors_come_before_data_errors() {
    let error = instantiate(module(vec![0x0b], 5, 1 << 20), None, None, Vec::new(), capped(2), 1)
        .err()
        .expect("a memory above the cap refuses the module");
    assert!(matches!(error, RuntimeError::MemoryLimitExceeded { minimum: 5, limit: 2 }));
}

#[test]
fn table_errors_come_before_data_errors() {
    let mut m = module(vec![0x0b], 1, 1 << 20);
    m.tables = vec![TableType { limits: Limits { min: 3, max: Some(1) } }];
    let error = instantiate(m, None, None, Vec::new(), RuntimeLimits::default(), 1)
        .err()
        .expect("a defined table with inconsistent limits refuses the module");
    assert!(matches!(error, RuntimeError::ControlInvariant(_)));
}

#[test]
fn data_errors_are_reported_when_everything_before_them_holds() {
    let error = instantiate(module(vec![0x0b], 1, 1 << 20), None, None, Vec::new(), RuntimeLimits::default(), 1)
        .err()
        .expect("a segment out of bounds refuses the module");
    assert!(matches!(error, RuntimeError::DataSegmentOutOfBounds { .. }));
}

#[test]
fn a_module_passing_every_check_instantiates() {
    let machine = instantiate(module(vec![0x0b], 1, 8), None, None, Vec::new(), RuntimeLimits::default(), 1)
        .expect("every check holds");
    assert_eq!(&machine.memory.as_ref().unwrap().bytes()[8..10], &[1, 2]);
}
