use httptunnel::id::{encode_id_text, id_from_bytes, id_to_bytes, parse_id_text};

#[test]
fn bytes_round_trip() {
    for &id in &[
        0u128,
        1,
        42,
        0xdead_beef,
        u128::MAX,
        0x0123_4567_89ab_cdef_0123_4567_89ab_cdef,
    ] {
        let bytes = id_to_bytes(id);
        assert_eq!(bytes.len(), 16);
        assert_eq!(id_from_bytes(&bytes), Some(id));
    }
}

#[test]
fn bytes_encoding_is_big_endian() {
    let bytes = id_to_bytes(0x0102_0304_0506_0708_090a_0b0c_0d0e_0f10);
    assert_eq!(
        bytes,
        vec![1, 2, 3, 4, 5, 6, 7, 8, 9, 10, 11, 12, 13, 14, 15, 16]
    );
}

#[test]
fn bytes_decoding_rejects_wrong_lengths() {
    assert_eq!(id_from_bytes(&[]), None);
    assert_eq!(id_from_bytes(&[0u8; 15]), None);
    assert_eq!(id_from_bytes(&[0u8; 17]), None);
}

#[test]
fn text_round_trip() {
    for &id in &[0u128, 1, 42, u128::MAX, 0x0123_4567_89ab_cdef_0123_4567_89ab_cdef] {
        let text = encode_id_text(id);
        assert_eq!(text.len(), 36);
        assert_eq!(parse_id_text(&text), Some(id));
    }
}

#[test]
fn text_encoding_is_canonical() {
    let text = encode_id_text(0x0123_4567_89ab_cdef_0123_4567_89ab_cdef);
    assert_eq!(
        String::from_utf8(text).unwrap(),
        "01234567-89ab-cdef-0123-456789abcdef"
    );
}

#[test]
fn text_codec_agrees_with_uuid() {
    for &id in &[
        0u128,
        42,
        u128::MAX,
        0xfeed_face_cafe_f00d_0123_4567_89ab_cdef,
    ] {
        let u = uuid::Uuid::from_u128(id);
        assert_eq!(id_to_bytes(id), u.as_bytes().to_vec());
        assert_eq!(
            String::from_utf8(encode_id_text(id)).unwrap(),
            u.to_string()
        );
        assert_eq!(parse_id_text(u.to_string().as_bytes()), Some(id));
    }
}

#[test]
fn text_parsing_accepts_uppercase_digits() {
    assert_eq!(
        parse_id_text(b"01234567-89AB-CDEF-0123-456789ABCDEF"),
        Some(0x0123_4567_89ab_cdef_0123_4567_89ab_cdef)
    );
}

#[test]
fn text_parsing_rejects_malformed_ids() {
    assert_eq!(parse_id_text(b""), None);
    assert_eq!(parse_id_text(b"not-a-uuid"), None);
    assert_eq!(parse_id_text(b"01234567-89ab-cdef-0123-456789abcde"), None);
    assert_eq!(parse_id_text(b"01234567-89ab-cdef-0123-456789abcdeff"), None);
    assert_eq!(parse_id_text(b"01234567x89ab-cdef-0123-456789abcdef"), None);
    assert_eq!(parse_id_text(b"01234567-89ab-cdef-0123-45678gabcdef"), None);
    assert_eq!(parse_id_text(b"0123456789abcdef0123456789abcdef    "), None);
}
