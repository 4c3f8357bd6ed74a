//! Block hashes: the hex text served for a block, decoded and checked to be
//! exactly 32 bytes long.
use crate::seed::HASH_LEN;
use vstd::prelude::*;

verus! {

/// Why a block hash was refused.
#[derive(Debug, PartialEq, Eq)]
pub enum HashError {
    /// The text is not an even number of hex digits.
    MalformedHex,
    /// The decoded hash is not 32 bytes long; these are its bytes.
    WrongLength { bytes: Vec<u8> },
}

/// The most characters of a response that hold the hash.
pub const HASH_TEXT_LEN: usize = 64;

pub open spec fn is_hex_digit(c: char) -> bool {
    ('0' <= c && c <= '9') || ('a' <= c && c <= 'f') || ('A' <= c && c <= 'F')
}

pub open spec fn hex_value(c: char) -> int {
    if '0' <= c && c <= '9' {
        c as int - '0' as int
    } else if 'a' <= c && c <= 'f' {
        c as int - 'a' as int + 10
    } else {
        c as int - 'A' as int + 10
    }
}

/// An even number of hex digits.
pub open spec fn is_hex_text(s: Seq<char>) -> bool {
    &&& s.len() % 2 == 0
    &&& forall|i: int| 0 <= i < s.len() ==> is_hex_digit(#[trigger] s[i])
}

/// The bytes that hex text stands for, two digits each, high digit first.
pub open spec fn hex_bytes(s: Seq<char>) -> Seq<u8> {
    Seq::new(
        s.len() / 2,
        |i: int| (hex_value(s[2 * i]) * 16 + hex_value(s[2 * i + 1])) as u8,
    )
}

/// The part of a response that holds the hash: its first 64 characters.
pub open spec fn hash_text(body: Seq<char>) -> Seq<char> {
    if body.len() <= HASH_TEXT_LEN {
        body
    } else {
        body.take(HASH_TEXT_LEN as int)
    }
}

fn hex_digit_value(c: char) -> (r: Option<u8>)
    ensures
        is_hex_digit(c) ==> r == Some(hex_value(c) as u8) && 0 <= hex_value(c) < 16,
        !is_hex_digit(c) ==> r is None,
{
    if '0' <= c && c <= '9' {
        Some((c as u32 - '0' as u32) as u8)
    } else if 'a' <= c && c <= 'f' {
        Some((c as u32 - 'a' as u32 + 10) as u8)
    } else if 'A' <= c && c <= 'F' {
        Some((c as u32 - 'A' as u32 + 10) as u8)
    } else {
        None
    }
}

/// Decodes hex text, upper or lower case, two digits to a byte.
pub fn decode_hex(text: &str) -> (r: Result<Vec<u8>, HashError>)
    ensures
        is_hex_text(text@) ==> (r matches Ok(b) && b@ == hex_bytes(text@)),
        !is_hex_text(text@) ==> r matches Err(HashError::MalformedHex),
{
    let n = text.unicode_len();
    if n % 2 != 0 {
        return Err(HashError::MalformedHex);
    }
    let mut out: Vec<u8> = Vec::new();
    let mut i: usize = 0;
    while i < n / 2
        invariant
            n == text@.len(),
            n % 2 == 0,
            i <= n / 2,
            out@.len() == i,
            forall|j: int| 0 <= j < 2 * i ==> is_hex_digit(#[trigger] text@[j]),
            forall|j: int| 0 <= j < i ==> #[trigger] out@[j] == hex_bytes(text@)[j],
        decreases n / 2 - i,
    {
        let hi = hex_digit_value(text.get_char(2 * i));
        let lo = hex_digit_value(text.get_char(2 * i + 1));
        match (hi, lo) {
            (Some(h), Some(l)) => {
                out.push(h * 16 + l);
            },
            _ => {
                return Err(HashError::MalformedHex);
            },
        }
        i = i + 1;
        assert(forall|j: int| 0 <= j < 2 * i ==> is_hex_digit(#[trigger] text@[j])) by {
            assert forall|j: int| 0 <= j < 2 * i implies is_hex_digit(#[trigger] text@[j]) by {
                if j >= 2 * (i - 1) {
                    assert(j == 2 * (i - 1) || j == 2 * (i - 1) + 1);
                }
            }
        }
    }
    assert(out@ =~= hex_bytes(text@));
    Ok(out)
}

/// Takes a decoded hash as it is if it is 32 bytes long, and refuses it
/// otherwise.
pub fn check_hash_length(bytes: Vec<u8>) -> (r: Result<Vec<u8>, HashError>)
    ensures
        bytes@.len() == HASH_LEN ==> (r matches Ok(b) && b@ == bytes@),
        bytes@.len() != HASH_LEN ==> (r matches Err(HashError::WrongLength { bytes: e })
            && e@ == bytes@),
{
    if bytes.len() == HASH_LEN {
        Ok(bytes)
    } else {
        Err(HashError::WrongLength { bytes })
    }
}

/// The block hash in a response: its first 64 characters decoded as hex,
/// which must give exactly 32 bytes.
pub fn hash_from_response(body: &str) -> (r: Result<Vec<u8>, HashError>)
    ensures
        !is_hex_text(hash_text(body@)) ==> r matches Err(HashError::MalformedHex),
        is_hex_text(hash_text(body@)) && hex_bytes(hash_text(body@)).len() == HASH_LEN ==> (
        r matches Ok(b) && b@ == hex_bytes(hash_text(body@))),
        is_hex_text(hash_text(body@)) && hex_bytes(hash_text(body@)).len() != HASH_LEN ==> (
        r matches Err(HashError::WrongLength { bytes }) && bytes@ == hex_bytes(
            hash_text(body@),
        )),
{
    let n = body.unicode_len();
    let text = if n <= HASH_TEXT_LEN {
        body
    } else {
        body.substring_char(0, HASH_TEXT_LEN)
    };
    assert(text@ =~= hash_text(body@));
    let bytes = decode_hex(text)?;
    check_hash_length(bytes)
}

} // verus!
