use webserver::error::ProtocolError;
use webserver::framing::{
    add_i16_as_be_bytes_to_vec, add_i32_as_be_bytes_to_vec, add_str_as_bytes_to_vec, decode,
    encode, encode_untagged, parse_header, read_i16, read_i32,
};

#[test]
fn encode_frames_tag_length_and_body() {
    let bytes = encode(b'Q', b"SELECT 1\0").unwrap();
    assert_eq!(bytes[0], b'Q');
    assert_eq!(&bytes[1..5], &[0, 0, 0, 13]);
    assert_eq!(&bytes[5..], b"SELECT 1\0");
}

#[test]
fn encode_of_empty_body_has_length_four() {
    assert_eq!(encode(b'I', &[]).unwrap(), vec![b'I', 0, 0, 0, 4]);
}

#[test]
fn encode_untagged_has_no_tag() {
    assert_eq!(encode_untagged(&[1, 2, 3]).unwrap(), vec![0, 0, 0, 7, 1, 2, 3]);
}

#[test]
fn decode_inverts_encode() {
    let bodies: [&[u8]; 4] = [b"", b"x", b"hello world", &[0, 255, 1, 254, 0]];
    for tag in [0u8, b'Q', b'Z', 255u8] {
        for body in bodies {
            let bytes = encode(tag, body).unwrap();
            let message = decode(&bytes).unwrap();
            assert_eq!(message.tag, tag);
            assert_eq!(message.body, body.to_vec());
        }
    }
}

#[test]
fn decode_inverts_encode_on_a_long_body() {
    let body: Vec<u8> = (0..70000u32).map(|i| (i % 251) as u8).collect();
    let bytes = encode(b'D', &body).unwrap();
    assert_eq!(&bytes[1..5], &[0, 1, 0x11, 0x74]);
    let message = decode(&bytes).unwrap();
    assert_eq!(message.tag, b'D');
    assert_eq!(message.body, body);
}

#[test]
fn decode_refuses_short_input() {
    assert_eq!(decode(&[b'Z', 0, 0, 0]).unwrap_err(), ProtocolError::Malformed);
    assert_eq!(decode(&[]).unwrap_err(), ProtocolError::Malformed);
}

#[test]
fn decode_refuses_a_length_that_does_not_count_the_bytes() {
    assert_eq!(decode(&[b'Z', 0, 0, 0, 5]).unwrap_err(), ProtocolError::WrongLength);
    assert_eq!(decode(&[b'Z', 0, 0, 0, 4, b'I']).unwrap_err(), ProtocolError::WrongLength);
    assert_eq!(decode(&[b'Z', 0xff, 0xff, 0xff, 0xff]).unwrap_err(), ProtocolError::WrongLength);
    assert_eq!(decode(&[b'Z', 0, 0, 0, 3]).unwrap_err(), ProtocolError::WrongLength);
}

#[test]
fn parse_header_gives_tag_and_body_length() {
    assert_eq!(parse_header(&[b'R', 0, 0, 0, 8]).unwrap(), (b'R', 4));
    assert_eq!(parse_header(&[b'Z', 0, 0, 0, 4]).unwrap(), (b'Z', 0));
    assert_eq!(parse_header(&[b'D', 0, 1, 0, 4]).unwrap(), (b'D', 65536));
}

#[test]
fn parse_header_refuses_bad_headers() {
    assert_eq!(parse_header(&[b'R', 0, 0, 0]).unwrap_err(), ProtocolError::Malformed);
    assert_eq!(parse_header(&[b'R', 0, 0, 0, 8, 0]).unwrap_err(), ProtocolError::Malformed);
    assert_eq!(parse_header(&[b'R', 0, 0, 0, 3]).unwrap_err(), ProtocolError::WrongLength);
    assert_eq!(parse_header(&[b'R', 0x80, 0, 0, 0]).unwrap_err(), ProtocolError::WrongLength);
}

#[test]
fn integers_are_written_big_endian() {
    let mut out = Vec::new();
    add_i16_as_be_bytes_to_vec(3, &mut out);
    add_i16_as_be_bytes_to_vec(-1, &mut out);
    add_i16_as_be_bytes_to_vec(i16::MIN, &mut out);
    add_i32_as_be_bytes_to_vec(0x01020304, &mut out);
    add_i32_as_be_bytes_to_vec(-2, &mut out);
    add_i32_as_be_bytes_to_vec(i32::MIN, &mut out);
    assert_eq!(
        out,
        vec![0, 3, 0xff, 0xff, 0x80, 0, 1, 2, 3, 4, 0xff, 0xff, 0xff, 0xfe, 0x80, 0, 0, 0]
    );
}

#[test]
fn integers_match_the_standard_conversion() {
    for n in [0i32, 1, -1, 255, 256, 65535, 65536, i32::MAX, i32::MIN, 1043, -1043] {
        let mut out = Vec::new();
        add_i32_as_be_bytes_to_vec(n, &mut out);
        assert_eq!(out, n.to_be_bytes().to_vec());
        assert_eq!(read_i32(&out, 0), n);
    }
    for n in [0i16, 1, -1, 255, 256, i16::MAX, i16::MIN, -300] {
        let mut out = vec![9u8];
        add_i16_as_be_bytes_to_vec(n, &mut out);
        assert_eq!(&out[1..], &n.to_be_bytes());
        assert_eq!(read_i16(&out, 1), n);
    }
}

#[test]
fn strings_are_written_as_utf8() {
    let mut out = vec![1u8];
    add_str_as_bytes_to_vec("user", &mut out);
    add_str_as_bytes_to_vec("é", &mut out);
    assert_eq!(out, vec![1, b'u', b's', b'e', b'r', 0xc3, 0xa9]);
}

#[test]
fn body_too_long_for_the_length_field_is_refused() {
    let body = vec![0u8; 0x7fff_fffc];
    assert_eq!(encode(b'D', &body).unwrap_err(), ProtocolError::MessageTooLong);
    assert_eq!(encode_untagged(&body).unwrap_err(), ProtocolError::MessageTooLong);
}
