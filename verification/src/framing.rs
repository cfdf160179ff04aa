//! Message framing: a tag byte, a big-endian 32-bit length that counts itself
//! and the body but not the tag, and the body.

use vstd::prelude::*;
use vstd::slice::slice_subrange;
use vstd::slice::slice_to_vec;
use crate::error::ProtocolError;

verus! {

/// The longest body that a length field can announce.
pub const MAX_BODY_LEN: usize = 0x7fff_fffb;

/// The two big-endian bytes of a 16-bit signed integer, in two's complement.
pub open spec fn be16(n: int) -> Seq<u8> {
    let u = if n < 0 { n + 0x1_0000 } else { n };
    seq![(u / 0x100) as u8, (u % 0x100) as u8]
}

/// The four big-endian bytes of a 32-bit signed integer, in two's complement.
pub open spec fn be32(n: int) -> Seq<u8> {
    let u = if n < 0 { n + 0x1_0000_0000 } else { n };
    seq![
        (u / 0x100_0000) as u8,
        (u / 0x1_0000 % 0x100) as u8,
        (u / 0x100 % 0x100) as u8,
        (u % 0x100) as u8,
    ]
}

/// The signed integer that two big-endian bytes stand for.
pub open spec fn from_be16(b: Seq<u8>) -> int
    recommends
        b.len() == 2,
{
    let u = b[0] as int * 0x100 + b[1] as int;
    if u >= 0x8000 { u - 0x1_0000 } else { u }
}

/// The signed integer that four big-endian bytes stand for.
pub open spec fn from_be32(b: Seq<u8>) -> int
    recommends
        b.len() == 4,
{
    let u = b[0] as int * 0x100_0000 + b[1] as int * 0x1_0000 + b[2] as int * 0x100 + b[3] as int;
    if u >= 0x8000_0000 { u - 0x1_0000_0000 } else { u }
}

/// Reading back what `be16` wrote gives the number.
pub proof fn lemma_be16_round_trip(n: int)
    requires
        -0x8000 <= n < 0x8000,
    ensures
        be16(n).len() == 2,
        from_be16(be16(n)) == n,
{
}

/// Reading back what `be32` wrote gives the number.
pub proof fn lemma_be32_round_trip(n: int)
    requires
        -0x8000_0000 <= n < 0x8000_0000,
    ensures
        be32(n).len() == 4,
        from_be32(be32(n)) == n,
{
}

/// The bytes of a string as they travel on the wire.
pub open spec fn text_bytes(s: Seq<char>) -> Seq<u8> {
    vstd::utf8::encode_utf8(s)
}

/// Appends the two big-endian bytes of `number` to `vector`.
pub fn add_i16_as_be_bytes_to_vec(number: i16, vector: &mut Vec<u8>)
    ensures
        final(vector)@ == old(vector)@ + be16(number as int),
{
    let wide: i32 = number as i32;
    let u: i32 = if wide < 0 { wide + 0x1_0000 } else { wide };
    vector.push((u / 0x100) as u8);
    vector.push((u % 0x100) as u8);
    assert(vector@ =~= old(vector)@ + be16(number as int));
}

/// Appends the four big-endian bytes of `number` to `vector`.
pub fn add_i32_as_be_bytes_to_vec(number: i32, vector: &mut Vec<u8>)
    ensures
        final(vector)@ == old(vector)@ + be32(number as int),
{
    let wide: i64 = number as i64;
    let u: i64 = if wide < 0 { wide + 0x1_0000_0000 } else { wide };
    vector.push((u / 0x100_0000) as u8);
    vector.push((u / 0x1_0000 % 0x100) as u8);
    vector.push((u / 0x100 % 0x100) as u8);
    vector.push((u % 0x100) as u8);
    assert(vector@ =~= old(vector)@ + be32(number as int));
}

/// Appends the UTF-8 bytes of `string` to `vector`.
pub fn add_str_as_bytes_to_vec(string: &str, vector: &mut Vec<u8>)
    ensures
        final(vector)@ == old(vector)@ + text_bytes(string@),
{
    vector.extend_from_slice(string.as_bytes());
}

/// Reads the big-endian 16-bit signed integer at `pos`.
pub fn read_i16(bytes: &[u8], pos: usize) -> (number: i16)
    requires
        pos + 2 <= bytes.len(),
    ensures
        number as int == from_be16(bytes@.subrange(pos as int, pos + 2)),
{
    let u: i32 = bytes[pos] as i32 * 0x100 + bytes[pos + 1] as i32;
    if u >= 0x8000 {
        (u - 0x1_0000) as i16
    } else {
        u as i16
    }
}

/// Reads the big-endian 32-bit signed integer at `pos`.
pub fn read_i32(bytes: &[u8], pos: usize) -> (number: i32)
    requires
        pos + 4 <= bytes.len(),
    ensures
        number as int == from_be32(bytes@.subrange(pos as int, pos + 4)),
{
    let u: i64 = bytes[pos] as i64 * 0x100_0000 + bytes[pos + 1] as i64 * 0x1_0000 + bytes[pos
        + 2] as i64 * 0x100 + bytes[pos + 3] as i64;
    if u >= 0x8000_0000 {
        (u - 0x1_0000_0000) as i32
    } else {
        u as i32
    }
}

/// One protocol message: its tag and its body.
#[derive(Clone, Debug, PartialEq)]
pub struct Message {
    pub tag: u8,
    pub body: Vec<u8>,
}

/// The length field of a message with this body: it counts itself and the
/// body, not the tag.
pub open spec fn length_of(body: Seq<u8>) -> int {
    4 + body.len() as int
}

/// The bytes of a tagged message: tag, length, body.
pub open spec fn encoded(tag: u8, body: Seq<u8>) -> Seq<u8> {
    seq![tag] + be32(length_of(body)) + body
}

/// The bytes of a message without a tag: length, body.
pub open spec fn encoded_untagged(body: Seq<u8>) -> Seq<u8> {
    be32(length_of(body)) + body
}

/// Whether `bytes` are exactly one tagged message: a tag, a length field and
/// as many bytes after it as it announces.
pub open spec fn is_frame(bytes: Seq<u8>) -> bool {
    bytes.len() >= 5 && from_be32(bytes.subrange(1, 5)) == length_of(
        bytes.subrange(5, bytes.len() as int),
    )
}

/// The tag and the body of the message that `bytes` are. Fewer than five
/// bytes are malformed; a length field that does not count the bytes that
/// follow the tag is a wrong length.
pub open spec fn decoded(bytes: Seq<u8>) -> Result<(u8, Seq<u8>), ProtocolError> {
    if bytes.len() < 5 {
        Err(ProtocolError::Malformed)
    } else if !is_frame(bytes) {
        Err(ProtocolError::WrongLength)
    } else {
        Ok((bytes[0], bytes.subrange(5, bytes.len() as int)))
    }
}

/// Frames `body` under `tag`. A body that the length field cannot count is refused.
pub fn encode(tag: u8, body: &[u8]) -> (result: Result<Vec<u8>, ProtocolError>)
    ensures
        body@.len() <= MAX_BODY_LEN ==> result is Ok && result->Ok_0@ == encoded(tag, body@),
        body@.len() > MAX_BODY_LEN ==> result == Err::<Vec<u8>, ProtocolError>(
            ProtocolError::MessageTooLong,
        ),
{
    if body.len() > MAX_BODY_LEN {
        return Err(ProtocolError::MessageTooLong);
    }
    let mut out: Vec<u8> = Vec::new();
    out.push(tag);
    add_i32_as_be_bytes_to_vec((body.len() + 4) as i32, &mut out);
    out.extend_from_slice(body);
    assert(out@ =~= encoded(tag, body@));
    Ok(out)
}

/// Frames `body` without a tag, as the startup message travels.
pub fn encode_untagged(body: &[u8]) -> (result: Result<Vec<u8>, ProtocolError>)
    ensures
        body@.len() <= MAX_BODY_LEN ==> result is Ok && result->Ok_0@ == encoded_untagged(body@),
        body@.len() > MAX_BODY_LEN ==> result == Err::<Vec<u8>, ProtocolError>(
            ProtocolError::MessageTooLong,
        ),
{
    if body.len() > MAX_BODY_LEN {
        return Err(ProtocolError::MessageTooLong);
    }
    let mut out: Vec<u8> = Vec::new();
    add_i32_as_be_bytes_to_vec((body.len() + 4) as i32, &mut out);
    out.extend_from_slice(body);
    assert(out@ =~= encoded_untagged(body@));
    Ok(out)
}

/// Splits the bytes of one tagged message into tag and body.
pub fn decode(bytes: &[u8]) -> (result: Result<Message, ProtocolError>)
    ensures
        match decoded(bytes@) {
            Ok((tag, body)) => result is Ok && result->Ok_0.tag == tag && result->Ok_0.body@
                == body,
            Err(e) => result == Err::<Message, ProtocolError>(e),
        },
{
    if bytes.len() < 5 {
        return Err(ProtocolError::Malformed);
    }
    let length: i32 = read_i32(bytes, 1);
    if length < 4 || length as usize != bytes.len() - 1 {
        return Err(ProtocolError::WrongLength);
    }
    let body: Vec<u8> = slice_to_vec(slice_subrange(bytes, 5, bytes.len()));
    Ok(Message { tag: bytes[0], body })
}

/// What the five bytes of a header announce: the tag and the number of body
/// bytes that follow.
pub open spec fn header_of(header: Seq<u8>) -> (u8, int) {
    (header[0], from_be32(header.subrange(1, 5)) - 4)
}

/// Reads a header. It must be five bytes, and its length field must count at
/// least itself.
pub fn parse_header(header: &[u8]) -> (result: Result<(u8, usize), ProtocolError>)
    ensures
        header@.len() != 5 ==> result == Err::<(u8, usize), ProtocolError>(
            ProtocolError::Malformed,
        ),
        header@.len() == 5 && header_of(header@).1 < 0 ==> result == Err::<
            (u8, usize),
            ProtocolError,
        >(ProtocolError::WrongLength),
        header@.len() == 5 && header_of(header@).1 >= 0 ==> result is Ok && result->Ok_0.0
            == header_of(header@).0 && result->Ok_0.1 as int == header_of(header@).1,
{
    if header.len() != 5 {
        return Err(ProtocolError::Malformed);
    }
    let length: i32 = read_i32(header, 1);
    if length < 4 {
        return Err(ProtocolError::WrongLength);
    }
    Ok((header[0], (length - 4) as usize))
}

/// Decoding what `encode` wrote gives back the tag and the body, for every
/// tag and every body that one message can hold.
pub proof fn lemma_decode_encode(tag: u8, body: Seq<u8>)
    requires
        body.len() <= MAX_BODY_LEN,
    ensures
        decoded(encoded(tag, body)) == Ok::<(u8, Seq<u8>), ProtocolError>((tag, body)),
{
    let bytes = encoded(tag, body);
    lemma_be32_round_trip(length_of(body));
    assert(bytes.subrange(1, 5) =~= be32(length_of(body)));
    assert(bytes.subrange(5, bytes.len() as int) =~= body);
}

/// The header of a message that `encode` wrote announces its tag and the
/// length of its body.
pub proof fn lemma_header_of_encoded(tag: u8, body: Seq<u8>)
    requires
        body.len() <= MAX_BODY_LEN,
    ensures
        header_of(encoded(tag, body).subrange(0, 5)) == (tag, body.len() as int),
{
    let bytes = encoded(tag, body);
    lemma_be32_round_trip(length_of(body));
    assert(bytes.subrange(0, 5).subrange(1, 5) =~= be32(length_of(body)));
}

} // verus!
