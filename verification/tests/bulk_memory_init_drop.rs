use mini_wasm::{parse_module, ParseError};

fn section(module: &mut Vec<u8>, id: u8, payload: &[u8]) {
    module.push(id);
    module.push(payload.len() as u8);
    module.extend_from_slice(payload);
}

fn module(body: &[u8], data: &[u8], declared_count: u8) -> Vec<u8> {
    let mut wasm = b"\0asm\x01\0\0\0".to_vec();
    section(&mut wasm, 1, &[1, 0x60, 0, 0]);
    section(&mut wasm, 3, &[1, 0]);
    section(&mut wasm, 5, &[1, 0, 1]);
    section(&mut wasm, 7, &[1, 3, b'r', b'u', b'n', 0, 0]);
    section(&mut wasm, 12, &[declared_count]);
    let mut code = vec![1, (body.len() + 1) as u8, 0];
    code.extend_from_slice(body);
    section(&mut wasm, 10, &code);
    let mut data_section = vec![1, 1, data.len() as u8];
    data_section.extend_from_slice(data);
    section(&mut wasm, 11, &data_section);
    wasm
}

#[test]
fn parser_rejects_datacount_mismatch() {
    let body = [0x0b];
    assert!(matches!(
        parse_module(&module(&body, b"x", 2)),
        Err(ParseError::DataCountMismatch {
            declared: 2,
            actual: 1
        })
    ));
}
