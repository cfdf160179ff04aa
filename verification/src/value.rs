//! Typed column values, field descriptions and the values handed to a
//! serializer.

use vstd::prelude::*;
use crate::error::ProtocolError;
use crate::text::bytes_to_string;
use crate::text::decimal_within;
use crate::text::parse_i32;
use crate::text::parse_i64;
use crate::text::text_of;

verus! {

/// The type OID of a 32-bit integer column.
pub const OID_INTEGER: i32 = 23;

/// The type OID of a 64-bit integer column.
pub const OID_BIG_INTEGER: i32 = 20;

/// The type OID of a blank-padded character column.
pub const OID_CHAR: i32 = 1042;

/// The type OID of a variable-length character column.
pub const OID_VARCHAR: i32 = 1043;

/// The type OID of a boolean column.
pub const OID_BOOLEAN: i32 = 16;

/// A value as a serializer sees it, with text as a sequence of characters.
pub enum JsonView {
    String(Seq<char>),
    Number(int),
    BigNumber(int),
    Boolean(bool),
    Null,
}

/// A value ready to be rendered by a serializer.
#[derive(Clone, Debug, PartialEq)]
pub enum JsonType {
    String(String),
    Number(i32),
    BigNumber(i64),
    Boolean(bool),
    Null,
}

impl View for JsonType {
    type V = JsonView;

    open spec fn view(&self) -> JsonView {
        match self {
            JsonType::String(s) => JsonView::String(s@),
            JsonType::Number(n) => JsonView::Number(*n as int),
            JsonType::BigNumber(n) => JsonView::BigNumber(*n as int),
            JsonType::Boolean(b) => JsonView::Boolean(*b),
            JsonType::Null => JsonView::Null,
        }
    }
}

/// A type whose values can be handed to a serializer.
pub trait MatchJsonType {
    /// What the value is to a serializer.
    spec fn json(&self) -> JsonView;

    /// The value in the serializer's terms.
    fn match_json_type(&self) -> (json: JsonType)
        ensures
            json@ == self.json(),
    ;
}

/// A column value, with text as a sequence of characters.
pub enum ValueView {
    Integer(int),
    BigInteger(int),
    Varchar(Seq<char>),
    Boolean(bool),
}

/// The value of one column of one row.
#[derive(Clone, Debug, PartialEq)]
pub enum DatabaseValue {
    Integer(i32),
    BigInteger(i64),
    Varchar(String),
    Boolean(bool),
}

impl View for DatabaseValue {
    type V = ValueView;

    open spec fn view(&self) -> ValueView {
        match self {
            DatabaseValue::Integer(n) => ValueView::Integer(*n as int),
            DatabaseValue::BigInteger(n) => ValueView::BigInteger(*n as int),
            DatabaseValue::Varchar(s) => ValueView::Varchar(s@),
            DatabaseValue::Boolean(b) => ValueView::Boolean(*b),
        }
    }
}

impl MatchJsonType for DatabaseValue {
    open spec fn json(&self) -> JsonView {
        match self {
            DatabaseValue::Integer(n) => JsonView::Number(*n as int),
            DatabaseValue::BigInteger(n) => JsonView::BigNumber(*n as int),
            DatabaseValue::Varchar(s) => JsonView::String(s@),
            DatabaseValue::Boolean(b) => JsonView::Boolean(*b),
        }
    }

    fn match_json_type(&self) -> (json: JsonType) {
        match self {
            DatabaseValue::Integer(n) => JsonType::Number(*n),
            DatabaseValue::BigInteger(n) => JsonType::BigNumber(*n),
            DatabaseValue::Varchar(s) => JsonType::String(s.clone()),
            DatabaseValue::Boolean(b) => JsonType::Boolean(*b),
        }
    }
}

/// A value that a request handler answers with.
#[derive(Clone, Debug, PartialEq)]
pub enum APIValue {
    String(String),
    Number(i32),
    Boolean(bool),
}

impl MatchJsonType for APIValue {
    open spec fn json(&self) -> JsonView {
        match self {
            APIValue::String(s) => JsonView::String(s@),
            APIValue::Number(n) => JsonView::Number(*n as int),
            APIValue::Boolean(b) => JsonView::Boolean(*b),
        }
    }

    fn match_json_type(&self) -> (json: JsonType) {
        match self {
            APIValue::String(s) => JsonType::String(s.clone()),
            APIValue::Number(n) => JsonType::Number(*n),
            APIValue::Boolean(b) => JsonType::Boolean(*b),
        }
    }
}

/// A value that may be absent, as its view.
pub open spec fn column_view(value: Option<DatabaseValue>) -> Option<ValueView> {
    match value {
        Some(v) => Some(v@),
        None => None,
    }
}

/// A field description, with its name as a sequence of characters.
pub struct FieldView {
    pub name: Seq<char>,
    pub table_oid: int,
    pub column_number: int,
    pub type_oid: int,
    pub type_size: int,
    pub type_add_info: int,
    pub type_send_method: int,
}

/// What a row description says of one column.
#[derive(Clone, Debug, PartialEq)]
pub struct DatabaseRowDescription {
    pub name: String,
    pub table_oid: i32,
    pub column_number: i16,
    pub type_oid: i32,
    pub type_size: i16,
    pub type_add_info: i32,
    pub type_send_method: i16,
}

impl View for DatabaseRowDescription {
    type V = FieldView;

    open spec fn view(&self) -> FieldView {
        FieldView {
            name: self.name@,
            table_oid: self.table_oid as int,
            column_number: self.column_number as int,
            type_oid: self.type_oid as int,
            type_size: self.type_size as int,
            type_add_info: self.type_add_info as int,
            type_send_method: self.type_send_method as int,
        }
    }
}

/// What to do with columns of a type that is not known.
#[derive(Clone, Copy, Debug, PartialEq, Eq, Structural)]
pub enum TypePolicy {
    /// Their values decode to null.
    Lenient,
    /// A result set that has such a column is refused.
    Strict,
}

/// Whether columns of type `type_oid` decode to a value.
pub open spec fn known_type(type_oid: int) -> bool {
    type_oid == 23 || type_oid == 20 || type_oid == 1042 || type_oid == 1043 || type_oid == 16
}

/// Whether columns of type `type_oid` decode to a value. Columns of any other
/// type decode to null.
pub fn is_known_type(type_oid: i32) -> (known: bool)
    ensures
        known == known_type(type_oid as int),
{
    type_oid == OID_INTEGER || type_oid == OID_BIG_INTEGER || type_oid == OID_CHAR || type_oid
        == OID_VARCHAR || type_oid == OID_BOOLEAN
}

/// Whether the type of each field is known.
pub open spec fn all_known(fields: Seq<FieldView>) -> bool {
    forall|i: int| 0 <= i < fields.len() ==> known_type(#[trigger] fields[i].type_oid)
}

/// Whether `policy` takes a result set with these fields: a lenient one takes
/// any, a strict one those whose types are all known.
pub open spec fn accepts_fields(policy: TypePolicy, fields: Seq<FieldView>) -> bool {
    policy == TypePolicy::Lenient || all_known(fields)
}

/// The value that the bytes of a column stand for under its type: a decimal
/// number for the integer types, the text for the character types, `t` for a
/// true boolean and any other text for a false one, and null for a type that
/// is not known.
pub open spec fn value_of(type_oid: int, raw: Seq<u8>) -> Result<Option<ValueView>, ProtocolError> {
    if type_oid == 23 {
        match decimal_within(raw, i32::MIN as int, i32::MAX as int) {
            Some(n) => Ok(Some(ValueView::Integer(n))),
            None => Err(ProtocolError::InvalidNumber),
        }
    } else if type_oid == 20 {
        match decimal_within(raw, i64::MIN as int, i64::MAX as int) {
            Some(n) => Ok(Some(ValueView::BigInteger(n))),
            None => Err(ProtocolError::InvalidNumber),
        }
    } else if type_oid == 1042 || type_oid == 1043 {
        match text_of(raw) {
            Some(t) => Ok(Some(ValueView::Varchar(t))),
            None => Err(ProtocolError::InvalidText),
        }
    } else if type_oid == 16 {
        match text_of(raw) {
            Some(t) => Ok(Some(ValueView::Boolean(raw == seq![0x74u8]))),
            None => Err(ProtocolError::InvalidText),
        }
    } else {
        Ok(None)
    }
}

/// Whether `result` is what `expected` says, values taken by their views.
pub open spec fn decoded_as(
    result: Result<Option<DatabaseValue>, ProtocolError>,
    expected: Result<Option<ValueView>, ProtocolError>,
) -> bool {
    match expected {
        Ok(value) => result is Ok && column_view(result->Ok_0) == value,
        Err(e) => result == Err::<Option<DatabaseValue>, ProtocolError>(e),
    }
}

/// Decodes the bytes of a column that is not null under the type of its field.
pub fn decode_value(type_oid: i32, raw: &[u8]) -> (result: Result<
    Option<DatabaseValue>,
    ProtocolError,
>)
    ensures
        decoded_as(result, value_of(type_oid as int, raw@)),
{
    if type_oid == OID_INTEGER {
        match parse_i32(raw) {
            Some(n) => Ok(Some(DatabaseValue::Integer(n))),
            None => Err(ProtocolError::InvalidNumber),
        }
    } else if type_oid == OID_BIG_INTEGER {
        match parse_i64(raw) {
            Some(n) => Ok(Some(DatabaseValue::BigInteger(n))),
            None => Err(ProtocolError::InvalidNumber),
        }
    } else if type_oid == OID_CHAR || type_oid == OID_VARCHAR {
        match bytes_to_string(raw) {
            Some(s) => Ok(Some(DatabaseValue::Varchar(s))),
            None => Err(ProtocolError::InvalidText),
        }
    } else if type_oid == OID_BOOLEAN {
        match bytes_to_string(raw) {
            Some(_) => {
                let truth: bool = raw.len() == 1 && raw[0] == 0x74;
                assert(truth == (raw@ =~= seq![0x74u8]));
                Ok(Some(DatabaseValue::Boolean(truth)))
            },
            None => Err(ProtocolError::InvalidText),
        }
    } else {
        Ok(None)
    }
}

/// The value of a column from its length field and its bytes: null where the
/// length is -1, whatever the type, and else what the bytes stand for.
pub open spec fn column_of(type_oid: int, length: int, raw: Seq<u8>) -> Result<
    Option<ValueView>,
    ProtocolError,
> {
    if length == -1 {
        Ok(None)
    } else {
        value_of(type_oid, raw)
    }
}

/// Decodes one column from its length field and its bytes. A length of -1
/// gives null without a look at the type or the bytes.
pub fn decode_column(type_oid: i32, length: i32, raw: &[u8]) -> (result: Result<
    Option<DatabaseValue>,
    ProtocolError,
>)
    ensures
        decoded_as(result, column_of(type_oid as int, length as int, raw@)),
{
    if length == -1 {
        Ok(None)
    } else {
        decode_value(type_oid, raw)
    }
}

/// A column of length -1 is null under every type, whatever bytes come with
/// it: no decoding by type takes place.
pub proof fn lemma_null_column(type_oid: int, raw: Seq<u8>)
    ensures
        column_of(type_oid, -1, raw) == Ok::<Option<ValueView>, ProtocolError>(None),
{
}

/// A column of a type that is not known is null, whatever its bytes.
pub proof fn lemma_unknown_type_is_null(type_oid: int, raw: Seq<u8>)
    requires
        !known_type(type_oid),
    ensures
        value_of(type_oid, raw) == Ok::<Option<ValueView>, ProtocolError>(None),
{
}

} // verus!
