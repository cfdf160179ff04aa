//! Row descriptions and data rows: the layout of their bodies and the typed
//! rows that they decode to.

use vstd::prelude::*;
use vstd::slice::slice_subrange;
use crate::error::ProtocolError;
use crate::framing::from_be16;
use crate::framing::from_be32;
use crate::framing::read_i16;
use crate::framing::read_i32;
use crate::text::bytes_to_string;
use crate::text::text_of;
use crate::textmap::TextMap;
use crate::value::accepts_fields;
use crate::value::column_of;
use crate::value::column_view;
use crate::value::decode_column;
use crate::value::DatabaseRowDescription;
use crate::value::DatabaseValue;
use crate::value::is_known_type;
use crate::value::known_type;
use crate::value::FieldView;
use crate::value::TypePolicy;
use crate::value::ValueView;

verus! {

/// One row of a result: its values by field name.
pub type Row = TextMap<Option<DatabaseValue>>;

/// A row as a map from field names to the views of its values.
pub type RowView = Map<Seq<char>, Option<ValueView>>;

/// The views of a list of field descriptions.
pub open spec fn fields_view(fields: Seq<DatabaseRowDescription>) -> Seq<FieldView> {
    Seq::new(fields.len(), |i: int| fields[i]@)
}

/// The view of a row.
pub open spec fn row_view(row: Row) -> RowView {
    Map::new(|k: Seq<char>| row@.contains_key(k), |k: Seq<char>| column_view(row@[k]))
}

/// The views of a list of rows.
pub open spec fn rows_view(rows: Seq<Row>) -> Seq<RowView> {
    Seq::new(rows.len(), |i: int| row_view(rows[i]))
}

/// Whether each row of a list keeps its invariant.
pub open spec fn rows_wf(rows: Seq<Row>) -> bool {
    forall|i: int| 0 <= i < rows.len() ==> (#[trigger] rows[i]).wf()
}

/// The position of the first zero byte at or after `pos`, or the length of
/// `body` where there is none.
pub open spec fn null_at(body: Seq<u8>, pos: int) -> int
    decreases body.len() - pos,
{
    if pos >= body.len() {
        body.len() as int
    } else if body[pos] == 0 {
        pos
    } else {
        null_at(body, pos + 1)
    }
}

/// Where no byte from `pos` up to `end` is zero, the first zero byte after
/// `pos` is the first one after `end`.
pub proof fn lemma_null_at_skips(body: Seq<u8>, pos: int, end: int)
    requires
        0 <= pos <= end <= body.len(),
        forall|k: int| pos <= k < end ==> body[k] != 0,
    ensures
        null_at(body, pos) == null_at(body, end),
    decreases end - pos,
{
    if pos < end {
        lemma_null_at_skips(body, pos + 1, end);
    }
}

/// The field described at `pos`, and the position after it: a name that ends
/// with a zero byte, then eighteen bytes of numbers.
pub open spec fn field_at(body: Seq<u8>, pos: int) -> Result<(FieldView, int), ProtocolError> {
    let end = null_at(body, pos);
    if end + 19 > body.len() {
        Err(ProtocolError::Malformed)
    } else {
        match text_of(body.subrange(pos, end)) {
            None => Err(ProtocolError::InvalidText),
            Some(name) => Ok(
                (
                    FieldView {
                        name,
                        table_oid: from_be32(body.subrange(end + 1, end + 5)),
                        column_number: from_be16(body.subrange(end + 5, end + 7)),
                        type_oid: from_be32(body.subrange(end + 7, end + 11)),
                        type_size: from_be16(body.subrange(end + 11, end + 13)),
                        type_add_info: from_be32(body.subrange(end + 13, end + 17)),
                        type_send_method: from_be16(body.subrange(end + 17, end + 19)),
                    },
                    end + 19,
                ),
            ),
        }
    }
}

/// What has been read, followed by what the rest gives, or the rest's error.
pub open spec fn after<T>(done: Seq<T>, rest: Result<Seq<T>, ProtocolError>) -> Result<
    Seq<T>,
    ProtocolError,
> {
    match rest {
        Ok(more) => Ok(done + more),
        Err(e) => Err(e),
    }
}

/// The `count` fields described from `pos` on.
pub open spec fn fields_from(body: Seq<u8>, pos: int, count: nat) -> Result<
    Seq<FieldView>,
    ProtocolError,
>
    decreases count,
{
    if count == 0 {
        Ok(Seq::empty())
    } else {
        match field_at(body, pos) {
            Err(e) => Err(e),
            Ok((field, next)) => after(seq![field], fields_from(body, next, (count - 1) as nat)),
        }
    }
}

/// The fields that the body of a row description describes: a 16-bit count,
/// then that many fields. Bytes after the last field are not looked at.
pub open spec fn fields_of(body: Seq<u8>) -> Result<Seq<FieldView>, ProtocolError> {
    if body.len() < 2 || from_be16(body.subrange(0, 2)) < 0 {
        Err(ProtocolError::Malformed)
    } else {
        fields_from(body, 2, from_be16(body.subrange(0, 2)) as nat)
    }
}

/// Whether `result` holds the fields that `expected` names, or its error.
pub open spec fn fields_as(
    result: Result<Vec<DatabaseRowDescription>, ProtocolError>,
    expected: Result<Seq<FieldView>, ProtocolError>,
) -> bool {
    match expected {
        Ok(fields) => result is Ok && fields_view(result->Ok_0@) == fields,
        Err(e) => result == Err::<Vec<DatabaseRowDescription>, ProtocolError>(e),
    }
}

/// Reads the body of a row description.
pub fn parse_row_description(body: &[u8]) -> (result: Result<
    Vec<DatabaseRowDescription>,
    ProtocolError,
>)
    ensures
        fields_as(result, fields_of(body@)),
{
    if body.len() < 2 {
        return Err(ProtocolError::Malformed);
    }
    let count: i16 = read_i16(body, 0);
    if count < 0 {
        return Err(ProtocolError::Malformed);
    }
    let mut fields: Vec<DatabaseRowDescription> = Vec::new();
    let mut pos: usize = 2;
    let mut i: i16 = 0;
    assert(fields_view(fields@) + Seq::<FieldView>::empty() =~= Seq::<FieldView>::empty());
    while i < count
        invariant
            0 <= i <= count,
            2 <= pos <= body@.len(),
            count as int == from_be16(body@.subrange(0, 2)),
            fields_of(body@) == after(
                fields_view(fields@),
                fields_from(body@, pos as int, (count - i) as nat),
            ),
        decreases count - i,
    {
        let mut end: usize = pos;
        while end < body.len() && body[end] != 0
            invariant
                pos <= end <= body@.len(),
                forall|k: int| pos <= k < end ==> body@[k] != 0,
            decreases body@.len() - end,
        {
            end += 1;
        }
        proof {
            lemma_null_at_skips(body@, pos as int, end as int);
        }
        if body.len() - end < 19 {
            return Err(ProtocolError::Malformed);
        }
        let name = match bytes_to_string(slice_subrange(body, pos, end)) {
            Some(name) => name,
            None => {
                return Err(ProtocolError::InvalidText);
            },
        };
        let field = DatabaseRowDescription {
            name,
            table_oid: read_i32(body, end + 1),
            column_number: read_i16(body, end + 5),
            type_oid: read_i32(body, end + 7),
            type_size: read_i16(body, end + 11),
            type_add_info: read_i32(body, end + 13),
            type_send_method: read_i16(body, end + 17),
        };
        proof {
            let rest = fields_from(body@, end + 19, (count - i - 1) as nat);
            assert(field_at(body@, pos as int) == Ok::<(FieldView, int), ProtocolError>(
                (field@, end + 19),
            ));
            if rest is Ok {
                assert(fields_view(fields@) + (seq![field@] + rest->Ok_0) =~= fields_view(
                    fields@.push(field),
                ) + rest->Ok_0);
            }
        }
        fields.push(field);
        pos = end + 19;
        i += 1;
    }
    assert(fields_view(fields@) + Seq::<FieldView>::empty() =~= fields_view(fields@));
    Ok(fields)
}

/// Checks the fields of a result set against `policy`.
pub fn check_types(policy: TypePolicy, fields: &Vec<DatabaseRowDescription>) -> (accepted: bool)
    ensures
        accepted == accepts_fields(policy, fields_view(fields@)),
{
    if policy == TypePolicy::Lenient {
        return true;
    }
    let mut i: usize = 0;
    while i < fields.len()
        invariant
            i <= fields@.len(),
            policy == TypePolicy::Strict,
            forall|k: int| 0 <= k < i ==> known_type(#[trigger] fields_view(fields@)[k].type_oid),
        decreases fields@.len() - i,
    {
        if !is_known_type(fields[i].type_oid) {
            assert(!known_type(fields_view(fields@)[i as int].type_oid));
            return false;
        }
        i += 1;
    }
    true
}

/// The columns of a data row from `pos` on, for the fields from `index` on:
/// each a 32-bit length and that many bytes, decoded under its field's type; a
/// length of -1 stands for null and is followed by no bytes. The last column
/// must end where the body ends.
pub open spec fn columns_from(fields: Seq<FieldView>, body: Seq<u8>, pos: int, index: int) -> Result<
    Seq<Option<ValueView>>,
    ProtocolError,
>
    decreases fields.len() - index,
{
    if index >= fields.len() {
        if pos == body.len() {
            Ok(Seq::empty())
        } else {
            Err(ProtocolError::Malformed)
        }
    } else if pos + 4 > body.len() {
        Err(ProtocolError::Malformed)
    } else {
        let length = from_be32(body.subrange(pos, pos + 4));
        let size = if length == -1 { 0 } else { length };
        if length < -1 || pos + 4 + size > body.len() {
            Err(ProtocolError::Malformed)
        } else {
            match column_of(fields[index].type_oid, length, body.subrange(pos + 4, pos + 4 + size)) {
                Err(e) => Err(e),
                Ok(value) => after(seq![value], columns_from(fields, body, pos + 4 + size, index + 1)),
            }
        }
    }
}

/// The columns that the body of a data row holds for `fields`: a 16-bit count
/// that must be the number of fields, then the columns.
pub open spec fn columns_of(fields: Seq<FieldView>, body: Seq<u8>) -> Result<
    Seq<Option<ValueView>>,
    ProtocolError,
> {
    if body.len() < 2 {
        Err(ProtocolError::Malformed)
    } else if from_be16(body.subrange(0, 2)) != fields.len() {
        Err(ProtocolError::ColumnCountMismatch)
    } else {
        columns_from(fields, body, 2, 0)
    }
}

/// The row that the first `count` columns make: each value under the name of
/// its field, a later column taking the place of an earlier one of its name.
pub open spec fn row_of(fields: Seq<FieldView>, columns: Seq<Option<ValueView>>, count: int) -> RowView
    decreases count,
{
    if count <= 0 {
        Map::empty()
    } else {
        row_of(fields, columns, count - 1).insert(fields[count - 1].name, columns[count - 1])
    }
}

/// The row that the body of a data row holds for `fields`.
pub open spec fn data_row_of(fields: Seq<FieldView>, body: Seq<u8>) -> Result<RowView, ProtocolError> {
    match columns_of(fields, body) {
        Ok(columns) => Ok(row_of(fields, columns, columns.len() as int)),
        Err(e) => Err(e),
    }
}

/// Whether `result` holds the row that `expected` names, or its error.
pub open spec fn row_as(result: Result<Row, ProtocolError>, expected: Result<RowView, ProtocolError>) -> bool {
    match expected {
        Ok(row) => result is Ok && result->Ok_0.wf() && row_view(result->Ok_0) == row,
        Err(e) => result == Err::<Row, ProtocolError>(e),
    }
}

/// A row depends on no column after the last one that it counts.
pub proof fn lemma_row_of_prefix(
    fields: Seq<FieldView>,
    a: Seq<Option<ValueView>>,
    b: Seq<Option<ValueView>>,
    count: int,
)
    requires
        count <= a.len(),
        count <= b.len(),
        forall|k: int| 0 <= k < count ==> a[k] == b[k],
    ensures
        row_of(fields, a, count) == row_of(fields, b, count),
    decreases count,
{
    if count > 0 {
        lemma_row_of_prefix(fields, a, b, count - 1);
    }
}

/// Reads the body of a data row into a row of typed values.
pub fn parse_data_row(fields: &Vec<DatabaseRowDescription>, body: &[u8]) -> (result: Result<
    Row,
    ProtocolError,
>)
    ensures
        row_as(result, data_row_of(fields_view(fields@), body@)),
{
    let ghost described = fields_view(fields@);
    if body.len() < 2 {
        return Err(ProtocolError::Malformed);
    }
    let count: i16 = read_i16(body, 0);
    if count < 0 || count as usize != fields.len() {
        return Err(ProtocolError::ColumnCountMismatch);
    }
    let mut row: Row = TextMap::new();
    let ghost mut done: Seq<Option<ValueView>> = Seq::empty();
    let mut pos: usize = 2;
    let mut i: usize = 0;
    assert(row_view(row) =~= row_of(described, done, 0));
    assert(done + Seq::<Option<ValueView>>::empty() =~= Seq::<Option<ValueView>>::empty());
    while i < fields.len()
        invariant
            0 <= i <= fields@.len(),
            2 <= pos <= body@.len(),
            described == fields_view(fields@),
            row.wf(),
            done.len() == i,
            row_view(row) == row_of(described, done, i as int),
            columns_of(described, body@) == after(
                done,
                columns_from(described, body@, pos as int, i as int),
            ),
        decreases fields@.len() - i,
    {
        if body.len() - pos < 4 {
            return Err(ProtocolError::Malformed);
        }
        let length: i32 = read_i32(body, pos);
        if length < -1 {
            return Err(ProtocolError::Malformed);
        }
        let size: usize = if length == -1 { 0 } else { length as usize };
        if body.len() - pos - 4 < size {
            return Err(ProtocolError::Malformed);
        }
        let raw = slice_subrange(body, pos + 4, pos + 4 + size);
        assert(described[i as int] == fields@[i as int]@);
        let value = match decode_column(fields[i].type_oid, length, raw) {
            Ok(value) => value,
            Err(e) => {
                return Err(e);
            },
        };
        let name = fields[i].name.clone();
        let ghost before = row;
        let ghost seen = column_view(value);
        row.insert(name, value);
        proof {
            let rest = columns_from(described, body@, pos + 4 + size, i + 1);
            let grown = done.push(seen);
            if rest is Ok {
                assert(done + (seq![seen] + rest->Ok_0) =~= grown + rest->Ok_0);
            }
            lemma_row_of_prefix(described, done, grown, i as int);
            assert(row_view(row) =~= row_view(before).insert(described[i as int].name, seen));
            done = grown;
        }
        pos = pos + 4 + size;
        i += 1;
    }
    if pos != body.len() {
        return Err(ProtocolError::Malformed);
    }
    assert(done + Seq::<Option<ValueView>>::empty() =~= done);
    Ok(row)
}

} // verus!
