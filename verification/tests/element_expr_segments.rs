use mini_wasm::parse_module;

fn section(module: &mut Vec<u8>, id: u8, payload: &[u8]) {
    module.push(id);
    module.push(payload.len() as u8);
    module.extend_from_slice(payload);
}

fn base_module(element_payload: &[u8], run_ops: &[u8]) -> Vec<u8> {
    let mut module = b"\0asm\x01\0\0\0".to_vec();
    section(&mut module, 1, &[1, 0x60, 0, 1, 0x7f]);
    section(&mut module, 3, &[2, 0, 0]);
    section(&mut module, 4, &[1, 0x70, 0, 1]);
    section(&mut module, 7, &[1, 3, b'r', b'u', b'n', 0, 1]);
    section(&mut module, 9, element_payload);

    let target = [0, 0x41, 42, 0x0b];
    let mut run = vec![0];
    run.extend_from_slice(run_ops);
    run.push(0x0b);
    let mut code = vec![2, target.len() as u8];
    code.extend_from_slice(&target);
    code.push(run.len() as u8);
    code.extend_from_slice(&run);
    section(&mut module, 10, &code);
    module
}

#[test]
fn expression_segment_rejects_non_funcref_constant() {
    let element = [1, 4, 0x41, 0, 0x0b, 1, 0x41, 0, 0x0b];
    assert!(parse_module(&base_module(&element, &[0x41, 0])).is_err());
}
