//! Seeds: a 64-bit value taken from the digest of a day's text, or from the
//! last eight bytes of a block hash.
use crate::block_hash::HashError;
use crate::calendar::CalendarDay;
use sha2::Digest;
use vstd::prelude::*;
use vstd::utf8::encode_utf8;

verus! {

/// The length in bytes of a block hash.
pub const HASH_LEN: usize = 32;

/// The SHA-256 digest of a byte string.
pub uninterp spec fn sha256_of(data: Seq<u8>) -> Seq<u8>;

/// The value of bytes read least significant first.
pub open spec fn le_value(b: Seq<u8>) -> nat
    decreases b.len(),
{
    if b.len() == 0 {
        0
    } else {
        b[0] as nat + 256 * le_value(b.drop_first())
    }
}

/// The value of bytes read most significant first.
pub open spec fn be_value(b: Seq<u8>) -> nat
    decreases b.len(),
{
    if b.len() == 0 {
        0
    } else {
        be_value(b.drop_last()) * 256 + b.last() as nat
    }
}

/// The digest from which a day's seed is read.
pub open spec fn date_digest(d: CalendarDay) -> Seq<u8> {
    sha256_of(encode_utf8(d.iso_text()))
}

/// The seed of a day: the first eight bytes of its digest, read in the
/// byte order given by `little`.
pub open spec fn date_seed(d: CalendarDay, little: bool) -> u64 {
    let head = date_digest(d).take(8);
    if little {
        le_value(head) as u64
    } else {
        be_value(head) as u64
    }
}

/// The seed of a block hash: its last eight bytes, least significant first.
pub open spec fn hash_seed(hash: Seq<u8>) -> u64 {
    le_value(hash.subrange(hash.len() - 8, hash.len() as int)) as u64
}

/// A bound on the value of `n` bytes: 256 to the power `n`.
pub open spec fn byte_bound(n: nat) -> nat
    decreases n,
{
    if n == 0 {
        1
    } else {
        256 * byte_bound((n - 1) as nat)
    }
}

proof fn lemma_le_value_bound(b: Seq<u8>)
    ensures
        le_value(b) < byte_bound(b.len()),
    decreases b.len(),
{
    if b.len() > 0 {
        lemma_le_value_bound(b.drop_first());
    }
}

proof fn lemma_byte_bound_monotonic(m: nat, n: nat)
    requires
        m <= n,
    ensures
        byte_bound(m) <= byte_bound(n),
    decreases n,
{
    if m < n {
        lemma_byte_bound_monotonic(m, (n - 1) as nat);
    }
}

/// Reads eight bytes of `b`, starting at `start`, least significant first.
fn read_le_u64(b: &[u8], start: usize) -> (r: u64)
    requires
        start + 8 <= b@.len(),
    ensures
        r as nat == le_value(b@.subrange(start as int, start + 8)),
{
    let len = b.len();
    let mut acc: u64 = 0;
    let mut i: usize = 8;
    proof {
        reveal_with_fuel(byte_bound, 8);
        assert(byte_bound(7) == 0x100000000000000nat);
    }
    while i > 0
        invariant
            i <= 8,
            start + 8 <= b@.len() == len,
            byte_bound(7) == 0x100000000000000nat,
            acc as nat == le_value(b@.subrange(start + i, start + 8)),
        decreases i,
    {
        let ghost tail = b@.subrange(start + i, start + 8);
        proof {
            lemma_le_value_bound(tail);
            lemma_byte_bound_monotonic(tail.len(), 7);
        }
        i = i - 1;
        let ghost cur = b@.subrange(start + i, start + 8);
        assert(cur.drop_first() =~= tail);
        assert(acc * 256 + 255 <= u64::MAX) by (nonlinear_arith)
            requires
                acc < 0x100000000000000u64,
        ;
        let shifted: u64 = acc * 256;
        acc = shifted + b[start + i] as u64;
    }
    acc
}

/// A day's seed depends on its `YYYY-MM-DD` text alone: days with the same
/// text get the same seed, in either byte order.
pub proof fn lemma_date_seed_deterministic(d1: CalendarDay, d2: CalendarDay, little: bool)
    requires
        d1.iso_text() == d2.iso_text(),
    ensures
        date_seed(d1, little) == date_seed(d2, little),
{
}

/// Relies on sha2's `Sha256` (`update`, then `finalize`): the digest depends on
/// the input bytes alone and is 32 bytes long.
#[verifier::external_body]
fn sha256(data: &[u8]) -> (r: Vec<u8>)
    ensures
        r@ == sha256_of(data@),
        r@.len() == 32,
{
    let mut hasher = sha2::Sha256::default();
    hasher.update(data);
    hasher.finalize().to_vec()
}

/// Relies on std's `u64::from_ne_bytes`: the bytes read in the machine's own
/// order, which is either least or most significant first.
#[verifier::external_body]
fn read_native_u64(bytes: [u8; 8]) -> (r: u64)
    ensures
        r == le_value(bytes@) || r == be_value(bytes@),
{
    u64::from_ne_bytes(bytes)
}

/// The seed read from a digest: its first eight bytes, in the machine's byte
/// order.
pub fn seed_from_digest(digest: &[u8]) -> (r: u64)
    requires
        digest@.len() >= 8,
    ensures
        r == le_value(digest@.take(8)) || r == be_value(digest@.take(8)),
{
    let head: [u8; 8] = [
        digest[0],
        digest[1],
        digest[2],
        digest[3],
        digest[4],
        digest[5],
        digest[6],
        digest[7],
    ];
    assert(head@ =~= digest@.take(8));
    read_native_u64(head)
}

/// The seed of a day: the first eight bytes of the SHA-256 digest of its
/// `YYYY-MM-DD` text, read in the machine's byte order.
pub fn seed_from_date(date: &CalendarDay) -> (r: u64)
    requires
        date.wf(),
    ensures
        r == date_seed(*date, true) || r == date_seed(*date, false),
{
    let text = date.to_iso_string();
    let digest = sha256(text.as_str().as_bytes());
    seed_from_digest(digest.as_slice())
}

/// The seed of a block hash: its last eight bytes, least significant first.
/// A hash that is not 32 bytes long is refused.
pub fn seed_from_hash(hash: &[u8]) -> (r: Result<u64, HashError>)
    ensures
        hash@.len() == HASH_LEN ==> r == Ok::<u64, HashError>(hash_seed(hash@)),
        hash@.len() != HASH_LEN ==> (r matches Err(HashError::WrongLength { bytes })
            && bytes@ == hash@),
{
    if hash.len() != HASH_LEN {
        let bytes = vstd::slice::slice_to_vec(hash);
        return Err(HashError::WrongLength { bytes });
    }
    let r = read_le_u64(hash, HASH_LEN - 8);
    Ok(r)
}

} // verus!
