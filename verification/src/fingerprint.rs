//! Content fingerprints: SHA-256 of a payload's bytes, written in upper-case
//! hexadecimal.
//!
//! The hash itself is computed by `ring` and the digits are written by
//! `data_encoding`; what this module proves is that the payload is fed to the
//! hash whole and in order, and what the digits of the result are.

use vstd::prelude::*;
use vstd::slice::slice_subrange;

verus! {

/// The longest input, in bytes, that the hash accepts: its length in bits has to
/// fit in 64 bits.
pub const MAX_INPUT_LEN: u64 = 0x1FFF_FFFF_FFFF_FFFF;

/// The number of bytes handed to the hash at a time.
pub const CHUNK_LEN: usize = 1024;

/// The number of bytes in a SHA-256 hash.
pub const HASH_LEN: usize = 32;

/// `ring::digest::Context`, carried as it is: a hash that is being computed.
#[verifier::external_type_specification]
#[verifier::external_body]
pub struct ExContext(ring::digest::Context);

/// The SHA-256 hash of a byte string: what `ring::digest::Context::finish`
/// returns for a SHA-256 context that was fed these bytes.
pub uninterp spec fn sha256(data: Seq<u8>) -> Seq<u8>;

/// The bytes that a hashing context has been fed so far, in order.
pub uninterp spec fn absorbed(ctx: ring::digest::Context) -> Seq<u8>;

/// `ring::digest::Context::new` for SHA-256: a context that has been fed nothing.
#[verifier::external_body]
fn context_new() -> (ctx: ring::digest::Context)
    ensures
        absorbed(ctx) == Seq::<u8>::empty(),
{
    ring::digest::Context::new(&ring::digest::SHA256)
}

/// `ring::digest::Context::update`: the context has been fed `data` after what it
/// had been fed before.
#[verifier::external_body]
fn context_update(ctx: &mut ring::digest::Context, data: &[u8])
    ensures
        absorbed(*final(ctx)) == absorbed(*old(ctx)) + data@,
{
    ctx.update(data)
}

/// `ring::digest::Context::finish`: the hash of all that the context was fed, 32
/// bytes for SHA-256. The call panics where the input's length in bits does not
/// fit in 64 bits, which `requires` leaves out.
#[verifier::external_body]
fn context_finish(ctx: ring::digest::Context) -> (hash: Vec<u8>)
    requires
        absorbed(ctx).len() <= MAX_INPUT_LEN,
    ensures
        hash@ == sha256(absorbed(ctx)),
        hash@.len() == HASH_LEN,
{
    ctx.finish().as_ref().to_vec()
}

/// The upper-case hexadecimal digit of a value below 16.
pub open spec fn hex_digit(n: int) -> char {
    seq!['0', '1', '2', '3', '4', '5', '6', '7', '8', '9', 'A', 'B', 'C', 'D', 'E', 'F'][n]
}

/// A byte string in upper-case hexadecimal: two digits for each byte, the high
/// half first.
pub open spec fn hex_upper(data: Seq<u8>) -> Seq<char> {
    Seq::new(
        2 * data.len(),
        |i: int|
            if i % 2 == 0 {
                hex_digit(data[i / 2] as int / 16)
            } else {
                hex_digit(data[i / 2] as int % 16)
            },
    )
}

/// `data_encoding::HEXUPPER.encode`: base 16 with the digits `0-9A-F`. The call
/// panics on inputs longer than `usize::MAX / 512`, which `requires` leaves out.
#[verifier::external_body]
fn hex_encode(data: &[u8]) -> (text: String)
    requires
        data@.len() <= usize::MAX / 512,
    ensures
        text@ == hex_upper(data@),
{
    data_encoding::HEXUPPER.encode(data)
}

/// The fingerprint of a payload: its SHA-256 hash in upper-case hexadecimal.
pub open spec fn fingerprint_of(data: Seq<u8>) -> Seq<char> {
    hex_upper(sha256(data))
}

/// Whether a payload of `len` bytes can be hashed.
pub open spec fn hashable(len: nat) -> bool {
    len <= MAX_INPUT_LEN
}

/// Whether a payload of `len` bytes can be hashed.
pub fn can_hash(len: usize) -> (ok: bool)
    ensures
        ok == hashable(len as nat),
{
    len as u64 <= MAX_INPUT_LEN
}

/// The SHA-256 hash of `data`, which is fed to the hash in chunks of
/// [`CHUNK_LEN`] bytes.
pub fn sha256_digest(data: &[u8]) -> (hash: Vec<u8>)
    requires
        hashable(data@.len()),
    ensures
        hash@ == sha256(data@),
        hash@.len() == HASH_LEN,
{
    let mut ctx = context_new();
    let mut pos: usize = 0;
    while pos < data.len()
        invariant
            0 <= pos <= data@.len(),
            absorbed(ctx) == data@.take(pos as int),
        decreases data@.len() - pos,
    {
        let end = if data.len() - pos > CHUNK_LEN {
            pos + CHUNK_LEN
        } else {
            data.len()
        };
        let chunk = slice_subrange(data, pos, end);
        context_update(&mut ctx, chunk);
        assert(data@.take(pos as int) + data@.subrange(pos as int, end as int) =~= data@.take(
            end as int,
        ));
        pos = end;
    }
    assert(data@.take(pos as int) =~= data@);
    context_finish(ctx)
}

/// Whether `c` is one of the digits `0-9A-F`.
pub open spec fn is_hex_digit(c: char) -> bool {
    exists|d: int| 0 <= d < 16 && c == #[trigger] hex_digit(d)
}

/// A byte string in hexadecimal has two characters for each byte, each of them
/// one of the digits `0-9A-F`.
pub proof fn lemma_hex_upper_shape(data: Seq<u8>)
    ensures
        hex_upper(data).len() == 2 * data.len(),
        forall|i: int| 0 <= i < 2 * data.len() ==> is_hex_digit(#[trigger] hex_upper(data)[i]),
{
    assert forall|i: int| 0 <= i < 2 * data.len() implies is_hex_digit(
        #[trigger] hex_upper(data)[i],
    ) by {
        let b = data[i / 2] as int;
        if i % 2 == 0 {
            assert(0 <= b / 16 < 16);
            assert(hex_upper(data)[i] == hex_digit(b / 16));
        } else {
            assert(0 <= b % 16 < 16);
            assert(hex_upper(data)[i] == hex_digit(b % 16));
        }
    }
}

/// The fingerprint of a payload: 64 characters, each of them one of the digits
/// `0-9A-F`. It depends on the bytes of the payload and on nothing else, and it
/// alone decides whether a source has changed.
pub fn digest(data: &[u8]) -> (text: String)
    requires
        hashable(data@.len()),
    ensures
        text@ == fingerprint_of(data@),
        text@.len() == 2 * HASH_LEN,
        forall|i: int| 0 <= i < 2 * HASH_LEN ==> is_hex_digit(#[trigger] text@[i]),
{
    let hash = sha256_digest(data);
    proof {
        lemma_hex_upper_shape(hash@);
    }
    hex_encode(hash.as_slice())
}

/// Equal payloads have equal fingerprints, whenever and wherever they are taken.
pub proof fn lemma_digest_deterministic(a: Seq<u8>, b: Seq<u8>)
    requires
        a =~= b,
    ensures
        fingerprint_of(a) == fingerprint_of(b),
{
}

} // verus!
