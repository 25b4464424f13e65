use mini_wasm::bench::{
    fnv1a, fold_checksum, parse_fingerprint, parse_positive_usize,
    workload_fingerprint, workload_module, workloads, Expected, Workload, WorkloadError, FNV_OFFSET,
};
use mini_wasm::instantiate::RuntimeLimits;
use mini_wasm::interp::{check_module, Outcome};
use mini_wasm::parse_module;
use mini_wasm::setup::instantiate;
use mini_wasm::text::render_decimal;
use mini_wasm::value::Value;

#[test]
fn workload_fingerprint_changes_with_definition() {
    let mut items = workloads();
    let original = workload_fingerprint(&items[0]);
    items[0].expected = Expected::I32(0);
    assert_ne!(original, workload_fingerprint(&items[0]));
}

#[test]
fn every_workload_produces_its_expected_result() {
    for workload in workloads() {
        let bytes = wat::parse_str(workload.wat).expect("workload text assembles");
        let module = parse_module(&bytes).expect("workload parses");
        assert!(check_module(&module));
        let mut m = instantiate(module, None, None, Vec::new(), RuntimeLimits::default(), 3)
            .expect("workload instantiates");
        let mut outcome = m.invoke_export(&"run".to_string(), vec![], false).unwrap();
        let values = loop {
            outcome = match outcome {
                Outcome::Continue => m.step().unwrap(),
                Outcome::Finished(values) => break values,
                other => panic!("{}: unexpected outcome {other:?}", workload.name),
            };
        };
        assert!(workload.expected.matches(&values), "{}: {values:?}", workload.name);
    }
}

#[test]
fn expected_bits_and_tags() {
    assert_eq!(Expected::I32(-1).bits(), 0xffff_ffff);
    assert_eq!(Expected::I64(-1).bits(), u64::MAX);
    assert_eq!(Expected::I32(0).tag(), 0x32);
    assert_eq!(Expected::I64(0).tag(), 0x64);
    assert!(!Expected::I32(1).matches(&[Value::I64(1)]));
    assert!(!Expected::I32(1).matches(&[Value::I32(1), Value::I32(1)]));
}

#[test]
fn fnv1a_known_values() {
    assert_eq!(fnv1a(FNV_OFFSET, b""), 0xcbf2_9ce4_8422_2325);
    assert_eq!(fnv1a(FNV_OFFSET, b"a"), 0xaf63_dc4c_8601_ec8c);
    assert_eq!(fnv1a(fnv1a(FNV_OFFSET, b"fo"), b"obar"), fnv1a(FNV_OFFSET, b"foobar"));
}

#[test]
fn fold_checksum_mixes_all_inputs() {
    assert_eq!(fold_checksum(0, 1, 0), 0x9e37_79b9_7f4a_7c15);
    assert_eq!(fold_checksum(1, 0, 1), 0xd6e8_feb8_6659_ff93);
    assert_eq!(fold_checksum(0, 0, 0), 0);
}

#[test]
fn positive_counts_parse() {
    assert_eq!(parse_positive_usize("2000", "iterations"), Ok(2000));
    assert_eq!(parse_positive_usize("+7", "samples"), Ok(7));
    let message = "baseline warmup must be a positive integer".to_string();
    assert_eq!(parse_positive_usize("0", "warmup"), Err(message.clone()));
    assert_eq!(parse_positive_usize("", "warmup"), Err(message.clone()));
    assert_eq!(parse_positive_usize("-3", "warmup"), Err(message.clone()));
    assert_eq!(parse_positive_usize("12a", "warmup"), Err(message.clone()));
    assert_eq!(parse_positive_usize("99999999999999999999999", "warmup"), Err(message));
}

#[test]
fn fingerprints_parse_as_sixteen_hex_digits() {
    assert_eq!(parse_fingerprint("0000000000001111", 3), Ok(0x1111));
    assert_eq!(parse_fingerprint("FFFFffffFFFFffff", 3), Ok(u64::MAX));
    let message = "baseline line 12 fingerprint must be exactly 16 hexadecimal digits".to_string();
    assert_eq!(parse_fingerprint("1111", 12), Err(message.clone()));
    assert_eq!(parse_fingerprint("000000000000111g", 12), Err(message.clone()));
    assert_eq!(parse_fingerprint("+000000000001111", 12), Err(message));
}

#[test]
fn decimal_rendering() {
    assert_eq!(render_decimal(0), "0");
    assert_eq!(render_decimal(7), "7");
    assert_eq!(render_decimal(1_000_907), "1000907");
}

#[test]
fn workload_text_compiles_to_the_module_it_declares() {
    let items = workloads();
    let module = workload_module(&items[0]).expect("workload compiles and parses");
    assert_eq!(module.code.len(), module.function_type_indices.len());
    assert!(module.exports.iter().any(|export| export.name == "run"));

    let empty = Workload { name: "empty", wat: "(module)", expected: Expected::I32(0) };
    let module = workload_module(&empty).expect("an empty module compiles");
    assert!(module.code.is_empty() && module.exports.is_empty());

    let broken = Workload { name: "broken", wat: "(module (func (result i32)", expected: Expected::I32(0) };
    assert!(matches!(workload_module(&broken), Err(WorkloadError::Compile(_))));
}
