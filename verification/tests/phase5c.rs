use mini_wasm::{decode_s33, ParseError};

#[test]
fn signed_33_decoder_covers_type_index_domain_and_rejects_overflow() {
    assert_eq!(decode_s33(&[0x00]).unwrap(), (0, 1));
    assert_eq!(decode_s33(&[0x7f]).unwrap(), (-1, 1));
    assert_eq!(
        decode_s33(&[0xff, 0xff, 0xff, 0xff, 0x0f]).unwrap(),
        (u32::MAX as i64, 5)
    );
    assert_eq!(
        decode_s33(&[0x80, 0x80, 0x80, 0x80, 0x70]).unwrap(),
        (-(1i64 << 32), 5)
    );
    assert_eq!(
        decode_s33(&[0xff, 0xff, 0xff, 0xff, 0x1f]),
        Err(ParseError::Leb128Overflow)
    );
}
