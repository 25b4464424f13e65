use mini_wasm::bench::{validate_baseline_context, BaselineContext};
use mini_wasm::host::{
    FunctionRef, GlobalHandle, GlobalHandleError, HostCapabilities, HostContext, HostRegistry,
    HostRegistryError, MemoryHandle, MemoryHandleError, TableHandle, TableHandleError,
};
use mini_wasm::instantiate::{validate_host_bindings, RuntimeLimits};
use mini_wasm::memory::LinearMemory;
use mini_wasm::numeric::{eval_i32, eval_i64};
use mini_wasm::runtime_error::{HostError, RuntimeError};
use mini_wasm::value::{validate_values, Value};
use mini_wasm::{parse_module, ValueType};

#[test]
fn integer_operators_follow_the_wasm_rules() {
    assert_eq!(eval_i32(7, 3, 0x6a), Ok(10));
    assert_eq!(eval_i32(-7, 2, 0x6d), Ok(-3));
    assert_eq!(eval_i32(-7, 2, 0x6f), Ok(-1));
    assert_eq!(eval_i32(-1, 2, 0x6e), Ok(0x7fff_ffff));
    assert_eq!(eval_i32(1, 33, 0x74), Ok(2));
    assert_eq!(eval_i32(i32::MIN, 1, 0x75), Ok(-0x4000_0000));
    assert_eq!(eval_i32(i32::MIN, 1, 0x76), Ok(0x4000_0000));
    assert_eq!(eval_i32(0x1234_5678, 8, 0x77), Ok(0x3456_7812));
    assert_eq!(eval_i32(0x1234_5678, 8, 0x78), Ok(0x7812_3456));
    assert_eq!(eval_i32(5, 0, 0x6d), Err(RuntimeError::IntegerDivisionByZero));
    assert_eq!(eval_i32(5, 0, 0x70), Err(RuntimeError::IntegerDivisionByZero));
    assert_eq!(eval_i32(i32::MIN, -1, 0x6d), Err(RuntimeError::IntegerOverflow));
    assert_eq!(eval_i32(i32::MIN, -1, 0x6f), Ok(0));
    assert_eq!(eval_i64(i64::MAX, 1, 0x7c), Ok(i64::MIN));
    assert_eq!(eval_i64(-9, 4, 0x81), Ok(-1));
    assert_eq!(eval_i64(i64::MIN, -1, 0x7f), Err(RuntimeError::IntegerOverflow));
    assert_eq!(eval_i64(1, 0, 0x80), Err(RuntimeError::IntegerDivisionByZero));
}

#[test]
fn linear_memory_round_trips_and_refuses_out_of_bounds() {
    let mut memory = LinearMemory::new(1, Some(2), 65_536).unwrap();
    assert_eq!(memory.size_pages(), 1);
    assert_eq!(memory.store_i32(8, 4, -2), Ok(()));
    assert_eq!(memory.load_i32(12, 0), Ok(-2));
    assert_eq!(memory.load_i8_u(12, 0), Ok(0xfe));
    assert_eq!(memory.load_i8_s(12, 0), Ok(-2));
    assert_eq!(memory.load_i16_u(12, 0), Ok(0xfffe));
    assert_eq!(memory.store_i64(0, 0, 0x0102_0304_0506_0708), Ok(()));
    assert_eq!(memory.bytes()[0], 0x08);
    assert_eq!(memory.load_i64_32_u(4, 0), Ok(0x0102_0304));
    assert_eq!(
        memory.load_i32(65_533, 0),
        Err(RuntimeError::MemoryOutOfBounds { address: 65_533, width: 4 })
    );
    assert_eq!(
        memory.store_i64(-1, 0, 1),
        Err(RuntimeError::MemoryOutOfBounds { address: 0xffff_ffff, width: 8 })
    );
    assert_eq!(memory.grow(1), 1);
    assert_eq!(memory.grow(1), -1);
    assert_eq!(memory.size_pages(), 2);
    assert_eq!(memory.load_i32(65_536, 0), Ok(0));
}

#[test]
fn memory_limits_are_checked_when_created() {
    assert_eq!(
        LinearMemory::new(3, None, 2).err(),
        Some(RuntimeError::MemoryLimitExceeded { minimum: 3, limit: 2 })
    );
    assert_eq!(
        MemoryHandle::new(2, Some(1)).err(),
        Some(MemoryHandleError::InvalidLimits { minimum: 2, maximum: 1 })
    );
    assert_eq!(
        MemoryHandle::new(1, Some(70_000)).err(),
        Some(MemoryHandleError::LimitExceeded { pages: 70_000, limit: 65_536 })
    );
}

#[test]
fn memory_handle_reads_writes_and_grows() {
    let mut handle = MemoryHandle::new(1, Some(3)).unwrap();
    assert_eq!(handle.minimum(), 1);
    assert_eq!(handle.maximum(), Some(3));
    assert_eq!(handle.write(10, &[1, 2, 3]), Ok(()));
    assert_eq!(handle.read(9, 5), Ok(vec![0, 1, 2, 3, 0]));
    assert_eq!(
        handle.read(65_535, 2),
        Err(MemoryHandleError::OutOfBounds { address: 65_535, width: 2 })
    );
    assert_eq!(handle.grow(2), 1);
    assert_eq!(handle.size_pages(), 3);
    assert_eq!(handle.grow(1), -1);
}

#[test]
fn globals_keep_their_type_and_mutability() {
    let mut constant = GlobalHandle::immutable(Value::I32(1));
    assert_eq!(constant.set(Value::I32(2)), Err(GlobalHandleError::Immutable));
    assert_eq!(constant.get(), Value::I32(1));
    let mut variable = GlobalHandle::mutable(Value::I64(1));
    assert_eq!(
        variable.set(Value::I32(2)),
        Err(GlobalHandleError::TypeMismatch { expected: ValueType::I64, actual: ValueType::I32 })
    );
    assert_eq!(variable.set(Value::I64(5)), Ok(()));
    assert_eq!(variable.get(), Value::I64(5));
    assert_eq!(variable.value_type(), ValueType::I64);
    assert!(variable.is_mutable());
}

#[test]
fn tables_bind_to_one_instance_at_a_time() {
    assert_eq!(
        TableHandle::new(3, Some(2)).err(),
        Some(TableHandleError::InvalidLimits { minimum: 3, maximum: 2 })
    );
    let mut table = TableHandle::new(2, Some(4)).unwrap();
    assert_eq!(table.len(), 2);
    assert!(!table.is_empty());
    assert_eq!(table.maximum(), Some(4));
    assert_eq!(table.get(0), Ok(None));
    assert_eq!(table.get(2), Err(TableHandleError::OutOfBounds { index: 2, length: 2 }));
    assert_eq!(table.bind(1), Ok(()));
    assert_eq!(table.bind(1), Ok(()));
    assert_eq!(table.bind(2), Err(TableHandleError::AlreadyBound));
    assert_eq!(table.set_for_instance(1, 9, 1), Ok(()));
    assert_eq!(table.get(1), Ok(Some(FunctionRef { owner: 1, function_index: 9 })));
    assert_eq!(table.function_index_for_instance(1, 1), Ok(Some(9)));
    assert_eq!(
        table.function_index_for_instance(1, 2),
        Err(TableHandleError::ForeignFunctionReference { index: 1 })
    );
    table.release(1);
    assert_eq!(table.bind(2), Ok(()));
}

#[test]
fn host_context_enforces_capabilities() {
    let memory = LinearMemory::new(1, None, 65_536).unwrap();
    let mut none = HostContext::new(Some(memory.clone()), HostCapabilities::none());
    assert_eq!(none.memory_size_pages(), Err(HostError::CapabilityDenied("memory.read")));
    assert_eq!(none.read_memory(0, 1), Err(HostError::CapabilityDenied("memory.read")));
    assert_eq!(none.write_memory(0, &[1]), Err(HostError::CapabilityDenied("memory.write")));

    let mut read_only = HostContext::new(Some(memory.clone()), HostCapabilities::memory_read());
    assert_eq!(read_only.memory_size_pages(), Ok(1));
    assert_eq!(read_only.write_memory(0, &[1]), Err(HostError::CapabilityDenied("memory.write")));

    let mut read_write = HostContext::new(Some(memory), HostCapabilities::memory_read_write());
    assert_eq!(read_write.write_memory(4, &[7, 8]), Ok(()));
    assert_eq!(read_write.read_memory(3, 4), Ok(vec![0, 7, 8, 0]));
    assert_eq!(
        read_write.read_memory(65_535, 2),
        Err(HostError::MemoryOutOfBounds { address: 65_535, width: 2 })
    );
    let memory = read_write.into_memory().unwrap();
    assert_eq!(memory.bytes()[4], 7);

    let without = HostContext::new(None, HostCapabilities::memory_read());
    assert_eq!(without.read_memory(0, 1), Err(HostError::MemoryUnavailable));
}

#[test]
fn registry_refuses_duplicates_and_multi_value_register() {
    let mut hosts = HostRegistry::new();
    assert_eq!(
        hosts.register("env".into(), "f".into(), vec![ValueType::I32], vec![ValueType::I32], HostCapabilities::none()),
        Ok(())
    );
    assert_eq!(
        hosts.register("env".into(), "f".into(), vec![], vec![], HostCapabilities::none()),
        Err(HostRegistryError::DuplicateFunction { module: "env".into(), name: "f".into() })
    );
    assert_eq!(
        hosts.register("env".into(), "g".into(), vec![], vec![ValueType::I32, ValueType::I32], HostCapabilities::none()),
        Err(HostRegistryError::UnsupportedSignature)
    );
    assert_eq!(
        hosts.register_values("env".into(), "g".into(), vec![], vec![ValueType::I32, ValueType::I32], HostCapabilities::none()),
        Ok(())
    );
    assert_eq!(hosts.register_immutable_global("env".into(), "c".into(), Value::I32(1)), Ok(()));
    assert_eq!(
        hosts.register_immutable_global("env".into(), "c".into(), Value::I32(2)),
        Err(HostRegistryError::DuplicateGlobal { module: "env".into(), name: "c".into() })
    );
    assert_eq!(hosts.find_function(&"env".into(), &"g".into()), Some(1));
    assert_eq!(hosts.find_global(&"env".into(), &"x".into()), None);
}

#[test]
fn host_bindings_are_checked_against_the_registry() {
    let bytes = wat::parse_str(
        r#"(module (import "env" "f" (func (param i32) (result i32))))"#,
    )
    .unwrap();
    let module = parse_module(&bytes).unwrap();
    let empty = HostRegistry::new();
    assert_eq!(
        validate_host_bindings(&module, &empty, RuntimeLimits::default()),
        Err(RuntimeError::UnresolvedImport { module: "env".into(), name: "f".into() })
    );
    let mut wrong = HostRegistry::new();
    wrong
        .register("env".into(), "f".into(), vec![ValueType::I64], vec![ValueType::I32], HostCapabilities::none())
        .unwrap();
    assert_eq!(
        validate_host_bindings(&module, &wrong, RuntimeLimits::default()),
        Err(RuntimeError::HostSignatureMismatch { module: "env".into(), name: "f".into() })
    );
    let mut right = HostRegistry::new();
    right
        .register("env".into(), "f".into(), vec![ValueType::I32], vec![ValueType::I32], HostCapabilities::none())
        .unwrap();
    assert_eq!(validate_host_bindings(&module, &right, RuntimeLimits::default()), Ok(()));
}

#[test]
fn result_values_are_checked_against_types() {
    assert_eq!(validate_values(&[ValueType::I32], &[Value::I32(1)]), Ok(()));
    assert_eq!(
        validate_values(&[ValueType::I32, ValueType::F64], &[Value::I32(1), Value::I64(2)]),
        Err(RuntimeError::ValueTypeMismatch { expected: ValueType::F64, actual: ValueType::I64 })
    );
}

#[test]
fn errors_describe_themselves() {
    assert_eq!(
        RuntimeError::ExportNotFound("run".to_string()).describe(),
        "export \"run\" not found"
    );
    assert_eq!(
        RuntimeError::UnsupportedOpcode(0x0a).describe(),
        "unsupported opcode 0x0a"
    );
    assert_eq!(
        RuntimeError::HostMemoryLimitsMismatch {
            module: "env".into(),
            name: "mem".into(),
            expected_minimum: 2,
            expected_maximum: None,
            actual_minimum: 1,
            actual_maximum: Some(3),
        }
        .describe(),
        "host memory env.mem has limits min=1 max=Some(3), which do not satisfy imported min=2 max=None"
    );
    assert_eq!(
        RuntimeError::HostCallFailed {
            module: "env".into(),
            name: "f".into(),
            error: HostError::CapabilityDenied("memory.read"),
        }
        .describe(),
        "host function env.f failed: host capability memory.read was not granted"
    );
    assert_eq!(
        RuntimeError::Decode(mini_wasm::ParseError::InvalidMagic([0, 0x61, 0x73, 0x6e])).describe(),
        "instruction decode failed: invalid WebAssembly magic: [00, 61, 73, 6e]"
    );
    assert_eq!(
        RuntimeError::ValueTypeMismatch { expected: ValueType::I32, actual: ValueType::FuncRef }.describe(),
        "runtime expected I32, got FuncRef"
    );
    assert_eq!(
        RuntimeError::HostGlobalMutabilityMismatch {
            module: "m".into(),
            name: "g".into(),
            expected: true,
            actual: false,
        }
        .describe(),
        "registered host global m.g has mutable=false, expected mutable=true"
    );
    assert_eq!(
        mini_wasm::ParseError::DataCountMismatch { declared: 3, actual: 12 }.describe(),
        "data-count section declares 3 segments but data section contains 12"
    );
    assert_eq!(TableHandleError::AlreadyBound.describe(), "table is already bound to a live instance");
    assert_eq!(
        HostRegistryError::DuplicateMemory { module: "a".into(), name: "b".into() }.describe(),
        "host memory a.b is already registered"
    );
    assert_eq!(HostError::Message("boom".into()).describe(), "boom");
}

#[test]
fn baseline_context_must_match_the_run() {
    let context = BaselineContext { host_id: "lab".into(), iterations: 1000, warmup: 64, samples: 7 };
    assert_eq!(validate_baseline_context(&context, 1000, 64, 7, &"lab".to_string()), Ok(()));
    assert_eq!(
        validate_baseline_context(&context, 1000, 64, 7, &"other".to_string()),
        Err("baseline host_id \"lab\" does not match requested host \"other\"".to_string())
    );
    assert_eq!(
        validate_baseline_context(&context, 2000, 64, 9, &"lab".to_string()),
        Err("baseline measurement settings are iterations=1000, warmup=64, samples=7, but candidate uses iterations=2000, warmup=64, samples=9".to_string())
    );
}

#[test]
fn segment_source_errors_describe_the_missing_range() {
    assert_eq!(
        RuntimeError::DataSegmentSourceOutOfBounds { segment: 0, offset: 4, length: 2 }.describe(),
        "data segment 0 has no 2 bytes at offset 4"
    );
    assert_eq!(
        RuntimeError::ElementSegmentSourceOutOfBounds { segment: 1, offset: 0, length: 3 }.describe(),
        "element segment 1 has no 3 elements at offset 0"
    );
}

#[test]
fn zero_sized_requests_need_no_allocation() {
    let mut memory = LinearMemory::new(0, Some(2), 10).unwrap();
    assert_eq!(memory.size_pages(), 0);
    assert_eq!(memory.grow(0), 0);
    assert_eq!(memory.grow(2), 0);
    assert_eq!(memory.grow(0), 2);
    assert_eq!(memory.grow(1), -1);
    assert_eq!(memory.size_pages(), 2);

    let mut handle = MemoryHandle::new(0, None).unwrap();
    assert_eq!(handle.size_pages(), 0);
    assert_eq!(handle.grow(0), 0);
    assert_eq!(handle.grow(1), 0);
    assert_eq!(handle.grow(0), 1);

    let mut table = TableHandle::new(0, Some(3)).unwrap();
    assert_eq!(table.len(), 0);
    assert_eq!(table.grow(0, None), Some(0));
    assert_eq!(table.grow(3, None), Some(0));
    assert_eq!(table.grow(0, None), Some(3));
    assert_eq!(table.grow(1, None), None);
    assert_eq!(table.len(), 3);
}
