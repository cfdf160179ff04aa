//! Session tokens: random texts of letters and digits.

use vstd::prelude::*;
use rand::Rng;
use crate::chars::from_chars;

verus! {

/// The number of characters of a token.
pub const TOKEN_LENGTH: usize = 32;

/// Whether `byte` is an ASCII letter or digit.
pub open spec fn is_alphanumeric(byte: u8) -> bool {
    (0x30 <= byte <= 0x39) || (0x41 <= byte <= 0x5a) || (0x61 <= byte <= 0x7a)
}

/// `Rng::sample` with the distribution `rand::distributions::Alphanumeric`, on
/// the generator of the thread, `rand::thread_rng`: one byte drawn from the
/// upper-case letters, the lower-case letters and the digits of ASCII. Which
/// one is left open.
#[verifier::external_body]
fn sample_alphanumeric() -> (byte: u8)
    ensures
        is_alphanumeric(byte),
{
    rand::thread_rng().sample(rand::distributions::Alphanumeric)
}

/// The text whose characters are the bytes given.
pub open spec fn text_of_bytes(bytes: Seq<u8>) -> Seq<char> {
    Seq::new(bytes.len(), |i: int| bytes[i] as char)
}

/// Makes a token of the bytes drawn: each byte becomes the character of its
/// number.
pub fn token_of(bytes: &[u8]) -> (token: String)
    ensures
        token@ == text_of_bytes(bytes@),
{
    let mut chars: Vec<char> = Vec::new();
    let mut i: usize = 0;
    while i < bytes.len()
        invariant
            i <= bytes@.len(),
            chars@ == text_of_bytes(bytes@.take(i as int)),
        decreases bytes@.len() - i,
    {
        chars.push(bytes[i] as char);
        assert(chars@ =~= text_of_bytes(bytes@.take(i + 1)));
        i += 1;
    }
    assert(bytes@.take(i as int) =~= bytes@);
    from_chars(chars.as_slice())
}

/// Whether `token` is a text of 32 ASCII letters and digits.
pub open spec fn is_token(token: Seq<char>) -> bool {
    &&& token.len() == 32
    &&& forall|i: int|
        0 <= i < token.len() ==> (#[trigger] token[i] as u32) < 0x80 && is_alphanumeric(
            token[i] as u8,
        )
}

/// Generates a token: 32 letters and digits, each drawn at random.
pub fn generate_token() -> (token: String)
    ensures
        is_token(token@),
{
    let mut bytes: Vec<u8> = Vec::new();
    while bytes.len() < TOKEN_LENGTH
        invariant
            bytes@.len() <= TOKEN_LENGTH,
            forall|i: int| 0 <= i < bytes@.len() ==> is_alphanumeric(#[trigger] bytes@[i]),
        decreases TOKEN_LENGTH - bytes@.len(),
    {
        let byte = sample_alphanumeric();
        bytes.push(byte);
    }
    let token = token_of(bytes.as_slice());
    assert forall|i: int| 0 <= i < token@.len() implies (#[trigger] token@[i] as u32) < 0x80
        && is_alphanumeric(token@[i] as u8) by {
        assert(is_alphanumeric(bytes@[i]));
    }
    token
}

} // verus!
