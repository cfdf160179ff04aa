use webserver::error::ProtocolError;
use webserver::text::{bytes_equal, bytes_to_string, parse_i32, parse_i64, str_equal};
use webserver::value::{
    decode_column, decode_value, is_known_type, APIValue, DatabaseValue, JsonType, MatchJsonType,
};

#[test]
fn integer_column_decodes_to_integer() {
    assert_eq!(decode_value(23, b"42"), Ok(Some(DatabaseValue::Integer(42))));
    assert_eq!(decode_value(23, b"-7"), Ok(Some(DatabaseValue::Integer(-7))));
    assert_eq!(decode_value(23, b"+7"), Ok(Some(DatabaseValue::Integer(7))));
    assert_eq!(decode_value(23, b"0"), Ok(Some(DatabaseValue::Integer(0))));
    assert_eq!(decode_value(23, b"007"), Ok(Some(DatabaseValue::Integer(7))));
}

#[test]
fn integer_column_keeps_to_its_range() {
    assert_eq!(decode_value(23, b"2147483647"), Ok(Some(DatabaseValue::Integer(i32::MAX))));
    assert_eq!(decode_value(23, b"-2147483648"), Ok(Some(DatabaseValue::Integer(i32::MIN))));
    assert_eq!(decode_value(23, b"2147483648"), Err(ProtocolError::InvalidNumber));
    assert_eq!(decode_value(23, b"-2147483649"), Err(ProtocolError::InvalidNumber));
}

#[test]
fn big_integer_column_decodes_to_big_integer() {
    assert_eq!(decode_value(20, b"42"), Ok(Some(DatabaseValue::BigInteger(42))));
    assert_eq!(
        decode_value(20, b"9223372036854775807"),
        Ok(Some(DatabaseValue::BigInteger(i64::MAX)))
    );
    assert_eq!(
        decode_value(20, b"-9223372036854775808"),
        Ok(Some(DatabaseValue::BigInteger(i64::MIN)))
    );
    assert_eq!(decode_value(20, b"9223372036854775808"), Err(ProtocolError::InvalidNumber));
    assert_eq!(decode_value(20, b"-9223372036854775809"), Err(ProtocolError::InvalidNumber));
    assert_eq!(
        decode_value(20, b"99999999999999999999999999999999999999999999"),
        Err(ProtocolError::InvalidNumber)
    );
}

#[test]
fn numbers_that_are_none_are_refused() {
    for raw in [&b""[..], b"-", b"+", b"4 2", b" 42", b"42 ", b"4a", b"--4", b"0x10", b"1.5"] {
        assert_eq!(decode_value(23, raw), Err(ProtocolError::InvalidNumber));
        assert_eq!(decode_value(20, raw), Err(ProtocolError::InvalidNumber));
    }
}

#[test]
fn boolean_column_decodes_t_and_f() {
    assert_eq!(decode_value(16, b"t"), Ok(Some(DatabaseValue::Boolean(true))));
    assert_eq!(decode_value(16, b"f"), Ok(Some(DatabaseValue::Boolean(false))));
}

#[test]
fn boolean_column_takes_other_text_for_false() {
    assert_eq!(decode_value(16, b"true"), Ok(Some(DatabaseValue::Boolean(false))));
    assert_eq!(decode_value(16, b""), Ok(Some(DatabaseValue::Boolean(false))));
    assert_eq!(decode_value(16, b"T"), Ok(Some(DatabaseValue::Boolean(false))));
    assert_eq!(decode_value(16, &[0xff]), Err(ProtocolError::InvalidText));
}

#[test]
fn character_columns_decode_to_text() {
    assert_eq!(
        decode_value(1043, b"hello"),
        Ok(Some(DatabaseValue::Varchar("hello".to_string())))
    );
    assert_eq!(
        decode_value(1042, b"ab  "),
        Ok(Some(DatabaseValue::Varchar("ab  ".to_string())))
    );
    assert_eq!(decode_value(1043, b""), Ok(Some(DatabaseValue::Varchar(String::new()))));
    assert_eq!(
        decode_value(1043, "grüß dich €".as_bytes()),
        Ok(Some(DatabaseValue::Varchar("grüß dich €".to_string())))
    );
}

#[test]
fn character_columns_refuse_invalid_utf8() {
    assert_eq!(decode_value(1043, &[b'a', 0xff]), Err(ProtocolError::InvalidText));
    assert_eq!(decode_value(1042, &[0xc3]), Err(ProtocolError::InvalidText));
    assert_eq!(decode_value(1043, &[0xed, 0xa0, 0x80]), Err(ProtocolError::InvalidText));
}

#[test]
fn unknown_type_decodes_to_null() {
    assert_eq!(decode_value(25, b"some text"), Ok(None));
    assert_eq!(decode_value(0, b""), Ok(None));
    assert_eq!(decode_value(-1, &[0xff]), Ok(None));
    assert_eq!(decode_value(701, b"1.5"), Ok(None));
}

#[test]
fn known_types_are_the_five() {
    for oid in [23, 20, 1042, 1043, 16] {
        assert!(is_known_type(oid));
    }
    for oid in [0, 1, 17, 21, 22, 24, 25, 1041, 1044, -23] {
        assert!(!is_known_type(oid));
    }
}

#[test]
fn null_length_gives_null_for_any_type() {
    for oid in [23, 20, 1042, 1043, 16, 25, 0, -5] {
        assert_eq!(decode_column(oid, -1, b""), Ok(None));
        assert_eq!(decode_column(oid, -1, b"not a number"), Ok(None));
        assert_eq!(decode_column(oid, -1, &[0xff]), Ok(None));
    }
}

#[test]
fn column_with_length_decodes_by_type() {
    assert_eq!(decode_column(23, 2, b"42"), Ok(Some(DatabaseValue::Integer(42))));
    assert_eq!(decode_column(16, 1, b"t"), Ok(Some(DatabaseValue::Boolean(true))));
    assert_eq!(decode_column(1043, 0, b""), Ok(Some(DatabaseValue::Varchar(String::new()))));
    assert_eq!(decode_column(23, 0, b""), Err(ProtocolError::InvalidNumber));
}

#[test]
fn parse_agrees_with_the_standard_parser() {
    let samples: [&str; 16] = [
        "0", "1", "-1", "+1", "12345", "-0", "+0", "0000", "2147483647", "2147483648",
        "-2147483648", "-2147483649", "", "-", "12a", "٣",
    ];
    for s in samples {
        assert_eq!(parse_i32(s.as_bytes()), s.parse::<i32>().ok());
        assert_eq!(parse_i64(s.as_bytes()), s.parse::<i64>().ok());
    }
}

#[test]
fn bytes_to_string_decodes_utf8() {
    assert_eq!(bytes_to_string(b"hello"), Some("hello".to_string()));
    assert_eq!(bytes_to_string("é€😀".as_bytes()), Some("é€😀".to_string()));
    assert_eq!(bytes_to_string(&[]), Some(String::new()));
    assert_eq!(bytes_to_string(&[0x80]), None);
    assert_eq!(bytes_to_string(&[0xc0, 0x80]), None);
    assert_eq!(bytes_to_string(&[0xf4, 0x90, 0x80, 0x80]), None);
}

#[test]
fn equality_of_bytes_and_strings() {
    assert!(bytes_equal(b"abc", b"abc"));
    assert!(bytes_equal(b"", b""));
    assert!(!bytes_equal(b"abc", b"abd"));
    assert!(!bytes_equal(b"abc", b"ab"));
    assert!(str_equal("png", "png"));
    assert!(!str_equal("png", "pn"));
    assert!(!str_equal("é", "e"));
}

#[test]
fn database_values_convert_for_a_serializer() {
    assert_eq!(DatabaseValue::Integer(5).match_json_type(), JsonType::Number(5));
    assert_eq!(DatabaseValue::BigInteger(1 << 40).match_json_type(), JsonType::BigNumber(1 << 40));
    assert_eq!(
        DatabaseValue::Varchar("x".to_string()).match_json_type(),
        JsonType::String("x".to_string())
    );
    assert_eq!(DatabaseValue::Boolean(true).match_json_type(), JsonType::Boolean(true));
}

#[test]
fn api_values_convert_for_a_serializer() {
    assert_eq!(APIValue::Number(-3).match_json_type(), JsonType::Number(-3));
    assert_eq!(
        APIValue::String("ok".to_string()).match_json_type(),
        JsonType::String("ok".to_string())
    );
    assert_eq!(APIValue::Boolean(false).match_json_type(), JsonType::Boolean(false));
}
