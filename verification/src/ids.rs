use crate::models::Id;
use rand::distr::Alphanumeric;
use rand::Rng;
use vstd::prelude::*;

verus! {

/// The lowercase hexadecimal digit of a value below sixteen.
pub open spec fn hex_digit(value: u128) -> char {
    if value < 10 {
        ((48 + value) as u8) as char
    } else {
        ((87 + value) as u8) as char
    }
}

/// The character at place `i` of an id's text: hyphens after the 8th, 12th,
/// 16th and 20th digit, and the 32 hexadecimal digits of the id around them,
/// the most significant first.
pub open spec fn hyphenated_char(id: Id, i: int) -> char {
    if i == 8 || i == 13 || i == 18 || i == 23 {
        '-'
    } else {
        let digit = if i < 8 {
            i
        } else if i < 13 {
            i - 1
        } else if i < 18 {
            i - 2
        } else if i < 23 {
            i - 3
        } else {
            i - 4
        };
        hex_digit((id >> ((4 * (31 - digit)) as u128)) & 0xf)
    }
}

/// The text of an id: 36 characters, as in
/// `123e4567-e89b-12d3-a456-426614174000`.
pub open spec fn hyphenated(id: Id) -> Seq<char> {
    Seq::new(36, |i: int| hyphenated_char(id, i))
}

/// `Uuid::from_u128` and the `Display` of `Uuid`: the hyphenated lowercase
/// text of the UUID whose 128 bits are `id`.
#[verifier::external_body]
pub(crate) fn uuid_text(id: Id) -> (text: String)
    ensures
        text@ == hyphenated(id),
{
    uuid::Uuid::from_u128(id).to_string()
}

/// Whether a character is an ASCII letter or digit.
pub open spec fn is_alphanumeric(c: char) -> bool {
    ||| '0' <= c <= '9'
    ||| 'A' <= c <= 'Z'
    ||| 'a' <= c <= 'z'
}

/// Whether a text is `len` ASCII letters and digits.
pub open spec fn is_token(text: Seq<char>, len: nat) -> bool {
    &&& text.len() == len
    &&& forall|i: int| 0 <= i < text.len() ==> is_alphanumeric(#[trigger] text[i])
}

/// `Rng::sample` on `Alphanumeric`, with the generator of the thread: one
/// ASCII letter or digit, chosen at random.
#[verifier::external_body]
fn sample_alphanumeric() -> (byte: u8)
    ensures
        is_alphanumeric(byte as char),
{
    rand::rng().sample(Alphanumeric)
}

/// `String::push`: the text with the character at its end.
#[verifier::external_body]
fn push_char(text: &mut String, c: char)
    ensures
        final(text)@ == old(text)@.push(c),
{
    text.push(c)
}

/// A random text of `len` ASCII letters and digits.
pub fn random_token(len: usize) -> (token: String)
    ensures
        is_token(token@, len as nat),
{
    let mut token = String::new();
    let mut i: usize = 0;
    while i < len
        invariant
            i <= len,
            is_token(token@, i as nat),
        decreases len - i,
    {
        let byte = sample_alphanumeric();
        push_char(&mut token, byte as char);
        i = i + 1;
    }
    token
}

} // verus!
