//! A small JSON reader for flat objects and a writer for rows of values.

use vstd::prelude::*;
use crate::chars::append_chars;
use crate::chars::chars_between;
use crate::chars::chars_equal;
use crate::chars::from_chars;
use crate::chars::pieces_view;
use crate::chars::split;
use crate::chars::split_chars;
use crate::chars::to_chars;
use crate::text::all_digits;
use crate::text::decimal_within;
use crate::text::digits_part;
use crate::text::digits_value;
use crate::text::is_digit;
use crate::text::parse_i32;
use crate::textmap::TextMap;
use crate::value::JsonType;
use crate::value::JsonView;
use crate::value::MatchJsonType;

verus! {

/// The character of a decimal digit.
pub open spec fn digit_char(d: int) -> char {
    ((0x30 + d) as u8) as char
}

/// The decimal digits of a natural number, without leading zeros.
pub open spec fn natural_text(n: nat) -> Seq<char>
    decreases n,
{
    if n < 10 {
        seq![digit_char(n as int)]
    } else {
        natural_text(n / 10).push(digit_char((n % 10) as int))
    }
}

/// The decimal text of an integer: a `-` before the digits of a negative one.
pub open spec fn decimal_text(n: int) -> Seq<char> {
    if n < 0 {
        seq!['-'] + natural_text((-n) as nat)
    } else {
        natural_text(n as nat)
    }
}

/// Appends the decimal digits of `n`.
pub fn push_natural(out: &mut Vec<char>, n: u64)
    ensures
        final(out)@ == old(out)@ + natural_text(n as nat),
    decreases n,
{
    if n >= 10 {
        push_natural(out, n / 10);
    }
    let d: u8 = (n % 10) as u8;
    out.push((0x30 + d) as char);
    assert(out@ =~= old(out)@ + natural_text(n as nat));
}

/// Appends the decimal text of `n`.
pub fn push_number(out: &mut Vec<char>, n: i64)
    ensures
        final(out)@ == old(out)@ + decimal_text(n as int),
{
    if n < 0 {
        out.push('-');
        let magnitude: u64 = (-(n as i128)) as u64;
        push_natural(out, magnitude);
        assert(out@ =~= old(out)@ + decimal_text(n as int));
    } else {
        push_natural(out, n as u64);
    }
}

/// Each character as the byte of its number.
pub open spec fn bytes_of(s: Seq<char>) -> Seq<u8> {
    Seq::new(s.len(), |i: int| s[i] as u8)
}

/// The bytes of a text of ASCII characters, and nothing for any other text.
pub open spec fn ascii_bytes(s: Seq<char>) -> Option<Seq<u8>> {
    if forall|i: int| 0 <= i < s.len() ==> (#[trigger] s[i] as u32) < 0x80 {
        Some(bytes_of(s))
    } else {
        None
    }
}

/// The 32-bit integer that a text denotes in decimal, if it denotes one.
pub open spec fn number_of(s: Seq<char>) -> Option<int> {
    match ascii_bytes(s) {
        Some(bytes) => decimal_within(bytes, i32::MIN as int, i32::MAX as int),
        None => None,
    }
}

/// Reads a decimal 32-bit integer.
pub fn parse_number(s: &[char]) -> (number: Option<i32>)
    ensures
        number is Some <==> number_of(s@) is Some,
        number is Some ==> number->Some_0 as int == number_of(s@)->Some_0,
{
    let mut bytes: Vec<u8> = Vec::new();
    let mut i: usize = 0;
    while i < s.len()
        invariant
            i <= s@.len(),
            bytes@.len() == i,
            forall|k: int| 0 <= k < i ==> (#[trigger] s@[k] as u32) < 0x80 && bytes@[k] == s@[k] as u8,
        decreases s@.len() - i,
    {
        let c = s[i];
        if c as u32 >= 0x80 {
            return None;
        }
        bytes.push(c as u8);
        i += 1;
    }
    assert(bytes@ =~= ascii_bytes(s@)->Some_0);
    parse_i32(bytes.as_slice())
}

/// A text without its first and its last character, each of which must be
/// one byte long. A text of fewer than two characters has no such part.
pub open spec fn unwrapped(s: Seq<char>) -> Option<Seq<char>> {
    if s.len() >= 2 && (s[0] as u32) < 0x80 && (s.last() as u32) < 0x80 {
        Some(s.subrange(1, s.len() - 1))
    } else {
        None
    }
}

/// Takes the first and the last character from a text.
pub fn unwrap_chars(s: &[char]) -> (inner: Option<Vec<char>>)
    ensures
        inner is Some <==> unwrapped(s@) is Some,
        inner is Some ==> inner->Some_0@ == unwrapped(s@)->Some_0,
{
    if s.len() >= 2 && (s[0] as u32) < 0x80 && (s[s.len() - 1] as u32) < 0x80 {
        Some(chars_between(s, 1, s.len() - 1))
    } else {
        None
    }
}

/// The text `true`.
pub open spec fn true_text() -> Seq<char> {
    seq!['t', 'r', 'u', 'e']
}

/// The text `false`.
pub open spec fn false_text() -> Seq<char> {
    seq!['f', 'a', 'l', 's', 'e']
}

/// The text `null`.
pub open spec fn null_text() -> Seq<char> {
    seq!['n', 'u', 'l', 'l']
}

/// What one item of an object gives.
pub enum ItemView {
    /// The item is not one that can be read.
    Refused,
    /// The item's value is of no known kind, and the item is passed over.
    Skipped,
    /// A key and its value.
    Entry(Seq<char>, JsonView),
}

/// The value that a text denotes: a string between double quotes, `true`,
/// `false`, `null` or a decimal 32-bit integer. Any other text denotes none. A
/// lone double quote is refused.
pub open spec fn value_of(raw: Seq<char>) -> Option<Option<JsonView>> {
    if raw.len() > 0 && raw[0] == '"' && raw.last() == '"' {
        if raw.len() < 2 {
            None
        } else {
            Some(Some(JsonView::String(raw.subrange(1, raw.len() - 1))))
        }
    } else if raw == true_text() {
        Some(Some(JsonView::Boolean(true)))
    } else if raw == false_text() {
        Some(Some(JsonView::Boolean(false)))
    } else if raw == null_text() {
        Some(Some(JsonView::Null))
    } else {
        match number_of(raw) {
            Some(n) => Some(Some(JsonView::Number(n))),
            None => Some(None),
        }
    }
}

/// What an item gives: its key is the text before the first `:` without its
/// first and last character, its value what the text between the first and
/// the second `:` denotes.
pub open spec fn item_of(item: Seq<char>) -> ItemView {
    let parts = split(item, ':');
    match unwrapped(parts[0]) {
        None => ItemView::Refused,
        Some(key) => if parts.len() < 2 {
            ItemView::Refused
        } else {
            match value_of(parts[1]) {
                None => ItemView::Refused,
                Some(None) => ItemView::Skipped,
                Some(Some(value)) => ItemView::Entry(key, value),
            }
        },
    }
}

/// The keys of the first `count` items, each with its value. A later item
/// takes the place of an earlier one of its key.
pub open spec fn items_map(items: Seq<Seq<char>>, count: int) -> Map<Seq<char>, JsonView>
    decreases count,
{
    if count <= 0 {
        Map::empty()
    } else {
        match item_of(items[count - 1]) {
            ItemView::Entry(key, value) => items_map(items, count - 1).insert(key, value),
            _ => items_map(items, count - 1),
        }
    }
}

/// The items of an object: the parts between the commas of the text inside
/// its braces.
pub open spec fn items_of(json: Seq<char>) -> Seq<Seq<char>> {
    split(unwrapped(json)->Some_0, ',')
}

/// Whether `json` is a flat object that can be read: it has a first and a
/// last character to take away, and none of its items is refused.
pub open spec fn is_json(json: Seq<char>) -> bool {
    &&& unwrapped(json) is Some
    &&& forall|i: int|
        0 <= i < items_of(json).len() ==> !(item_of(#[trigger] items_of(json)[i]) is Refused)
}

/// The keys and values of a flat object.
pub open spec fn json_of(json: Seq<char>) -> Map<Seq<char>, JsonView> {
    items_map(items_of(json), items_of(json).len() as int)
}

/// A map of values as a map of their views.
pub open spec fn json_view(map: TextMap<JsonType>) -> Map<Seq<char>, JsonView> {
    Map::new(|k: Seq<char>| map@.contains_key(k), |k: Seq<char>| map@[k]@)
}

/// Whether a value read is the one expected, taken by its view.
pub open spec fn value_as(result: Option<Option<JsonType>>, expected: Option<Option<JsonView>>) -> bool {
    match expected {
        None => result is None,
        Some(None) => result is Some && result->Some_0 is None,
        Some(Some(value)) => result is Some && result->Some_0 is Some && result->Some_0->Some_0@
            == value,
    }
}

/// Reads the value that a text denotes.
pub fn read_value(raw: &[char]) -> (result: Option<Option<JsonType>>)
    ensures
        value_as(result, value_of(raw@)),
{
    if raw.len() > 0 && raw[0] == '"' && raw[raw.len() - 1] == '"' {
        if raw.len() < 2 {
            return None;
        }
        let inner = chars_between(raw, 1, raw.len() - 1);
        return Some(Some(JsonType::String(from_chars(inner.as_slice()))));
    }
    let yes: Vec<char> = vec!['t', 'r', 'u', 'e'];
    let no: Vec<char> = vec!['f', 'a', 'l', 's', 'e'];
    let nothing: Vec<char> = vec!['n', 'u', 'l', 'l'];
    assert(yes@ =~= true_text());
    assert(no@ =~= false_text());
    assert(nothing@ =~= null_text());
    if chars_equal(raw, yes.as_slice()) {
        Some(Some(JsonType::Boolean(true)))
    } else if chars_equal(raw, no.as_slice()) {
        Some(Some(JsonType::Boolean(false)))
    } else if chars_equal(raw, nothing.as_slice()) {
        Some(Some(JsonType::Null))
    } else {
        match parse_number(raw) {
            Some(n) => Some(Some(JsonType::Number(n))),
            None => Some(None),
        }
    }
}

/// Reads a flat object, if it is one that can be read.
pub fn read_json(json: &[char]) -> (result: Option<TextMap<JsonType>>)
    ensures
        result is Some <==> is_json(json@),
        result is Some ==> result->Some_0.wf() && json_view(result->Some_0) == json_of(json@),
{
    let inner = match unwrap_chars(json) {
        Some(inner) => inner,
        None => {
            return None;
        },
    };
    let listed = split_chars(inner.as_slice(), ',');
    let ghost items = items_of(json@);
    let mut map: TextMap<JsonType> = TextMap::new();
    let mut i: usize = 0;
    assert(json_view(map) =~= items_map(items, 0));
    while i < listed.len()
        invariant
            i <= listed@.len(),
            unwrapped(json@) is Some,
            items == items_of(json@),
            pieces_view(listed@) == items,
            map.wf(),
            json_view(map) == items_map(items, i as int),
            forall|k: int| 0 <= k < i ==> !(item_of(#[trigger] items[k]) is Refused),
        decreases listed@.len() - i,
    {
        assert(items[i as int] == listed@[i as int]@);
        let parts = split_chars(listed[i].as_slice(), ':');
        assert(pieces_view(parts@)[0] == parts@[0]@);
        let key = match unwrap_chars(parts[0].as_slice()) {
            Some(key) => key,
            None => {
                assert(item_of(items[i as int]) is Refused);
                return None;
            },
        };
        if parts.len() < 2 {
            assert(item_of(items[i as int]) is Refused);
            return None;
        }
        assert(pieces_view(parts@)[1] == parts@[1]@);
        match read_value(parts[1].as_slice()) {
            None => {
                assert(item_of(items[i as int]) is Refused);
                return None;
            },
            Some(None) => {},
            Some(Some(value)) => {
                let name = from_chars(key.as_slice());
                let ghost before = map;
                map.insert(name, value);
                assert(json_view(map) =~= json_view(before).insert(name@, value@));
            },
        }
        i += 1;
    }
    Some(map)
}

/// Whether `json_string` is a flat object that can be read.
pub fn is_json_string(json_string: &str) -> (accepted: bool)
    ensures
        accepted == is_json(json_string@),
{
    let chars = to_chars(json_string);
    read_json(chars.as_slice()).is_some()
}

/// Reads a flat object into its keys and values.
pub fn parse_json_string(json_string: &str) -> (map: TextMap<JsonType>)
    requires
        is_json(json_string@),
    ensures
        map.wf(),
        json_view(map) == json_of(json_string@),
{
    let chars = to_chars(json_string);
    match read_json(chars.as_slice()) {
        Some(map) => map,
        None => TextMap::new(),
    }
}

/// The text of a value: `null` for none, a string between double quotes, a
/// number in decimal, `true` or `false`.
pub open spec fn value_text(value: Option<JsonView>) -> Seq<char> {
    match value {
        None => null_text(),
        Some(JsonView::String(s)) => seq!['"'] + s + seq!['"'],
        Some(JsonView::Number(n)) => decimal_text(n),
        Some(JsonView::BigNumber(n)) => decimal_text(n),
        Some(JsonView::Boolean(b)) => if b {
            true_text()
        } else {
            false_text()
        },
        Some(JsonView::Null) => null_text(),
    }
}

/// The text of an entry: the key between double quotes, a colon, a blank and
/// the text of the value.
pub open spec fn entry_text(key: Seq<char>, value: Option<JsonView>) -> Seq<char> {
    seq!['"'] + key + seq!['"', ':', ' '] + value_text(value)
}

/// The texts of the first `count` entries, with a comma and a blank between
/// each two.
pub open spec fn entries_text(keys: Seq<Seq<char>>, values: Seq<Option<JsonView>>, count: int) -> Seq<
    char,
>
    decreases count,
{
    if count <= 0 {
        Seq::empty()
    } else if count == 1 {
        entry_text(keys[0], values[0])
    } else {
        entries_text(keys, values, count - 1) + seq![',', ' '] + entry_text(
            keys[count - 1],
            values[count - 1],
        )
    }
}

/// The text of a row: its entries between braces.
pub open spec fn row_text(keys: Seq<Seq<char>>, values: Seq<Option<JsonView>>) -> Seq<char> {
    seq!['{'] + entries_text(keys, values, keys.len() as int) + seq!['}']
}

/// The values of a row as a serializer sees them.
pub open spec fn json_values<T: MatchJsonType>(values: Seq<Option<T>>) -> Seq<Option<JsonView>> {
    Seq::new(
        values.len(),
        |i: int|
            match values[i] {
                Some(v) => Some(v.json()),
                None => None,
            },
    )
}

/// The text of the row at `i`.
pub open spec fn text_of_row<T: MatchJsonType>(data: Seq<TextMap<Option<T>>>, i: int) -> Seq<char> {
    row_text(data[i].keys(), json_values(data[i].values()))
}

/// The texts of the first `count` rows, with a comma and a blank between each
/// two.
pub open spec fn rows_text<T: MatchJsonType>(data: Seq<TextMap<Option<T>>>, count: int) -> Seq<char>
    decreases count,
{
    if count <= 0 {
        Seq::empty()
    } else if count == 1 {
        text_of_row(data, 0)
    } else {
        rows_text(data, count - 1) + seq![',', ' '] + text_of_row(data, count - 1)
    }
}

/// The text of a list of rows: the rows, between brackets where there are
/// more than one.
pub open spec fn json_text<T: MatchJsonType>(data: Seq<TextMap<Option<T>>>) -> Seq<char> {
    if data.len() > 1 {
        seq!['['] + rows_text(data, data.len() as int) + seq![']']
    } else {
        rows_text(data, data.len() as int)
    }
}

/// Appends the text of a value.
fn push_value<T: MatchJsonType>(out: &mut Vec<char>, value: &Option<T>)
    ensures
        final(out)@ == old(out)@ + value_text(
            match *value {
                Some(v) => Some(v.json()),
                None => None,
            },
        ),
{
    match value {
        None => {
            out.push('n');
            out.push('u');
            out.push('l');
            out.push('l');
            assert(out@ =~= old(out)@ + null_text());
        },
        Some(v) => match v.match_json_type() {
            JsonType::String(s) => {
                out.push('"');
                let chars = to_chars(s.as_str());
                out.extend_from_slice(chars.as_slice());
                out.push('"');
                assert(out@ =~= old(out)@ + (seq!['"'] + s@ + seq!['"']));
            },
            JsonType::Number(n) => {
                push_number(out, n as i64);
            },
            JsonType::BigNumber(n) => {
                push_number(out, n);
            },
            JsonType::Boolean(b) => {
                if b {
                    out.push('t');
                    out.push('r');
                    out.push('u');
                    out.push('e');
                    assert(out@ =~= old(out)@ + true_text());
                } else {
                    out.push('f');
                    out.push('a');
                    out.push('l');
                    out.push('s');
                    out.push('e');
                    assert(out@ =~= old(out)@ + false_text());
                }
            },
            JsonType::Null => {
                out.push('n');
                out.push('u');
                out.push('l');
                out.push('l');
                assert(out@ =~= old(out)@ + null_text());
            },
        },
    }
}

/// Appends the text of a row.
fn push_row<T: MatchJsonType>(out: &mut Vec<char>, row: &TextMap<Option<T>>)
    requires
        row.wf(),
    ensures
        final(out)@ == old(out)@ + row_text(row.keys(), json_values(row.values())),
{
    let ghost keys = row.keys();
    let ghost values = json_values(row.values());
    out.push('{');
    let count: usize = row.len();
    let mut i: usize = 0;
    assert(out@ =~= old(out)@ + seq!['{'] + entries_text(keys, values, 0));
    while i < count
        invariant
            i <= count,
            row.wf(),
            count == row.keys().len(),
            keys == row.keys(),
            values == json_values(row.values()),
            out@ == old(out)@ + seq!['{'] + entries_text(keys, values, i as int),
        decreases count - i,
    {
        let ghost before = out@;
        if i > 0 {
            out.push(',');
            out.push(' ');
        }
        out.push('"');
        let key = to_chars(row.key_at(i).as_str());
        out.extend_from_slice(key.as_slice());
        out.push('"');
        out.push(':');
        out.push(' ');
        push_value(out, row.value_at(i));
        proof {
            let entry = entry_text(keys[i as int], values[i as int]);
            if i > 0 {
                assert(out@ =~= before + seq![',', ' '] + entry);
            } else {
                assert(out@ =~= before + entry);
            }
            assert(out@ =~= old(out)@ + seq!['{'] + entries_text(keys, values, i + 1));
        }
        i += 1;
    }
    out.push('}');
    assert(out@ =~= old(out)@ + row_text(keys, values));
}

/// Writes rows of values as JSON text: each row as an object with its keys in
/// ascending order, the rows between brackets where there are more than one.
pub fn json_encode<T: MatchJsonType>(data: &Vec<TextMap<Option<T>>>) -> (json: String)
    requires
        forall|i: int| 0 <= i < data@.len() ==> (#[trigger] data@[i]).wf(),
    ensures
        json@ == json_text(data@),
{
    let mut out: Vec<char> = Vec::new();
    let count: usize = data.len();
    if count > 1 {
        out.push('[');
    }
    let ghost opening = out@;
    let mut i: usize = 0;
    assert(out@ =~= opening + rows_text(data@, 0));
    while i < count
        invariant
            i <= count,
            count == data@.len(),
            forall|k: int| 0 <= k < data@.len() ==> (#[trigger] data@[k]).wf(),
            out@ == opening + rows_text(data@, i as int),
        decreases count - i,
    {
        let ghost before = out@;
        if i > 0 {
            out.push(',');
            out.push(' ');
        }
        push_row(&mut out, &data[i]);
        proof {
            let row = text_of_row(data@, i as int);
            if i > 0 {
                assert(out@ =~= before + seq![',', ' '] + row);
            } else {
                assert(out@ =~= before + row);
            }
            assert(out@ =~= opening + rows_text(data@, i + 1));
        }
        i += 1;
    }
    if count > 1 {
        out.push(']');
        assert(out@ =~= json_text(data@));
    } else {
        assert(opening =~= Seq::<char>::empty());
        assert(out@ =~= json_text(data@));
    }
    from_chars(out.as_slice())
}

/// The decimal digits of a natural number are ASCII digits, at least one of
/// them, and denote the number.
pub proof fn lemma_natural_text(n: nat)
    ensures
        natural_text(n).len() >= 1,
        ascii_bytes(natural_text(n)) == Some(bytes_of(natural_text(n))),
        all_digits(bytes_of(natural_text(n))),
        digits_value(bytes_of(natural_text(n))) == n,
    decreases n,
{
    let text = natural_text(n);
    let bytes = bytes_of(text);
    if n < 10 {
        assert(text[0] as u32 == 0x30 + n);
        assert(bytes.drop_last() =~= Seq::<u8>::empty());
        assert(digits_value(bytes.drop_last()) == 0);
    } else {
        let shorter = natural_text(n / 10);
        lemma_natural_text(n / 10);
        assert(text.last() as u32 == 0x30 + n % 10);
        assert forall|i: int| 0 <= i < text.len() implies (#[trigger] text[i] as u32) < 0x80 by {
            if i < shorter.len() {
                assert(text[i] == shorter[i]);
                assert(is_digit(bytes_of(shorter)[i]));
            }
        }
        assert(bytes.drop_last() =~= bytes_of(shorter));
        assert forall|i: int| 0 <= i < bytes.len() implies is_digit(
            #[trigger] bytes[i],
        ) by {
            if i < shorter.len() {
                assert(bytes[i] == bytes_of(shorter)[i]);
            }
        }
    }
}

/// Reading the decimal text of a 32-bit integer gives the integer back.
pub proof fn lemma_number_round_trip(n: int)
    requires
        i32::MIN <= n <= i32::MAX,
    ensures
        number_of(decimal_text(n)) == Some(n),
{
    if n < 0 {
        let digits = natural_text((-n) as nat);
        lemma_natural_text((-n) as nat);
        let text = decimal_text(n);
        assert forall|i: int| 0 <= i < text.len() implies (#[trigger] text[i] as u32) < 0x80 by {
            if i > 0 {
                assert(text[i] == digits[i - 1]);
                assert(is_digit(bytes_of(digits)[i - 1]));
            }
        }
        let bytes = bytes_of(text);
        assert(bytes[0] == 0x2d);
        assert(digits_part(bytes) =~= bytes_of(digits));
    } else {
        let text = natural_text(n as nat);
        lemma_natural_text(n as nat);
        let bytes = bytes_of(text);
        assert(is_digit(bytes[0]));
        assert(digits_part(bytes) =~= bytes);
    }
}

} // verus!
