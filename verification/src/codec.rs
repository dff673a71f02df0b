//! Opaque cursor codec.
//!
//! Pagination state travels to the client as an opaque token: the four
//! big-endian bytes of a 32-bit value, run through base64. Three kinds of
//! value are carried this way: a row-boundary id (`i32`), a shuffle resume
//! offset (`i32`), and a shuffle seed (a 32-bit float, handled here purely
//! as its IEEE-754 bit pattern, `u32`).
//!
//! Decoding is deliberately length-tolerant, mirroring long-standing
//! behaviour of this token format: the integer decoder folds however many
//! bytes the token decodes to (so malformed tokens of the wrong length
//! yield an unspecified but deterministic integer rather than an error),
//! and the seed decoder reads the first four bytes, padding missing ones
//! with zero. Only text that is not valid base64 is rejected.

use vstd::prelude::*;

use crate::GqlError;

verus! {

/// What `base64::encode` returns for a given byte sequence.
pub uninterp spec fn b64_of(bytes: Seq<u8>) -> Seq<char>;

/// What `base64::decode` returns: the decoded bytes, or `None` when the
/// text is not valid base64.
pub uninterp spec fn b64_decoded(text: Seq<char>) -> Option<Seq<u8>>;

#[verifier::external_type_specification]
#[verifier::external_body]
pub struct ExDecodeError(base64::DecodeError);

/// Relies on `base64::encode`: standard-alphabet, padded encoding of the
/// input bytes. The length bound keeps clear of the encoder's overflow
/// panic when sizing its output buffer.
#[verifier::external_body]
fn b64_encode(bytes: &[u8]) -> (r: String)
    requires
        bytes@.len() < usize::MAX / 4,
    ensures
        r@ == b64_of(bytes@),
{
    base64::encode(bytes)
}

/// Everything `base64::decode` guarantees of its result `r` on input
/// `text`: success exactly on valid base64, the decoded bytes on success,
/// and (last conjunct) that decoding inverts encoding.
pub open spec fn b64_decode_ensures(text: Seq<char>, r: Result<Vec<u8>, base64::DecodeError>) -> bool {
    &&& (r matches Ok(v) ==> b64_decoded(text) == Some(v@))
    &&& (r is Err <==> b64_decoded(text) is None)
    &&& (forall|b: Seq<u8>| b64_decoded(#[trigger] b64_of(b)) == Some(b))
}

/// Relies on `base64::decode`: it fails exactly on text that is not valid
/// base64, and inverts `base64::encode`.
#[verifier::external_body]
fn b64_decode(token: &str) -> (r: Result<Vec<u8>, base64::DecodeError>)
    ensures
        r is Err <==> b64_decoded(token@) is None,
        b64_decode_ensures(token@, r),
{
    base64::decode(token)
}

/// The IEEE-754-style two's-complement bit pattern of an `i32`.
pub open spec fn i32_bits(v: i32) -> u32 {
    if v >= 0 {
        v as u32
    } else {
        (v + 0x1_0000_0000) as u32
    }
}

/// The `i32` whose two's-complement bit pattern is `u`.
pub open spec fn i32_of_bits(u: u32) -> i32 {
    if u < 0x8000_0000 {
        u as i32
    } else {
        (u - 0x1_0000_0000) as i32
    }
}

pub proof fn lemma_i32_bits_round_trip(v: i32)
    ensures
        i32_of_bits(i32_bits(v)) == v,
{
}

/// The four big-endian bytes of a 32-bit value.
pub open spec fn be_bytes_of_u32(u: u32) -> Seq<u8> {
    seq![
        ((u >> 24) & 0xff) as u8,
        ((u >> 16) & 0xff) as u8,
        ((u >> 8) & 0xff) as u8,
        (u & 0xff) as u8,
    ]
}

/// Big-endian fold of an arbitrary byte sequence into 32 bits, exactly as
/// the integer decoder computes it: each byte shifts the accumulator left
/// by 8 and is or-ed in, high bits falling off.
pub open spec fn be_fold_u32(s: Seq<u8>) -> u32
    decreases s.len(),
{
    if s.len() == 0 {
        0u32
    } else {
        (be_fold_u32(s.drop_last()) << 8) | (s.last() as u32)
    }
}

/// The seed decoder's view of a byte sequence: its first four bytes, any
/// missing one read as zero.
pub open spec fn byte_or_zero(s: Seq<u8>, i: int) -> u8 {
    if 0 <= i < s.len() {
        s[i]
    } else {
        0u8
    }
}

/// 32 bits reassembled big-endian from the first four bytes.
pub open spec fn seed_bits_of_bytes(s: Seq<u8>) -> u32 {
    ((byte_or_zero(s, 0) as u32) << 24) | ((byte_or_zero(s, 1) as u32) << 16) | ((byte_or_zero(
        s,
        2,
    ) as u32) << 8) | (byte_or_zero(s, 3) as u32)
}

/// The integer value an integer token carries, when its text is valid
/// base64.
pub open spec fn decoded_i32_of(text: Seq<char>) -> Option<i32> {
    match b64_decoded(text) {
        Some(b) => Some(i32_of_bits(be_fold_u32(b))),
        None => None,
    }
}

/// The seed bits a seed token carries, when its text is valid base64.
pub open spec fn decoded_seed_of(text: Seq<char>) -> Option<u32> {
    match b64_decoded(text) {
        Some(b) => Some(seed_bits_of_bytes(b)),
        None => None,
    }
}

/// The token text produced for the cursor value `v`.
pub open spec fn encoded_i32(v: i32) -> Seq<char> {
    b64_of(be_bytes_of_u32(i32_bits(v)))
}

/// The token text produced for the seed bit pattern `u`.
pub open spec fn encoded_seed(u: u32) -> Seq<char> {
    b64_of(be_bytes_of_u32(u))
}

proof fn lemma_byte_masked(x: u32)
    ensures
        x & 0xff < 256,
{
    assert(x & 0xff < 256) by (bit_vector);
}

/// Folding the four big-endian bytes of `u` yields `u` again.
proof fn lemma_be_fold_of_be_bytes(u: u32)
    ensures
        be_fold_u32(be_bytes_of_u32(u)) == u,
{
    let x0 = (u >> 24) & 0xff;
    let x1 = (u >> 16) & 0xff;
    let x2 = (u >> 8) & 0xff;
    let x3 = u & 0xff;
    lemma_byte_masked(u >> 24);
    lemma_byte_masked(u >> 16);
    lemma_byte_masked(u >> 8);
    lemma_byte_masked(u);
    let s = be_bytes_of_u32(u);
    reveal_with_fuel(be_fold_u32, 5);
    assert(s.drop_last() =~= seq![x0 as u8, x1 as u8, x2 as u8]);
    assert(s.drop_last().drop_last() =~= seq![x0 as u8, x1 as u8]);
    assert(s.drop_last().drop_last().drop_last() =~= seq![x0 as u8]);
    assert(s.drop_last().drop_last().drop_last().drop_last() =~= Seq::<u8>::empty());
    assert(be_fold_u32(s) == ((((((0u32 << 8) | x0) << 8 | x1) << 8) | x2) << 8) | x3);
    assert(((((((0u32 << 8) | ((u >> 24) & 0xff)) << 8 | ((u >> 16) & 0xff)) << 8) | ((u >> 8)
        & 0xff)) << 8) | (u & 0xff) == u) by (bit_vector);
}

/// Reading the four big-endian bytes of `u` back yields `u` again.
proof fn lemma_seed_bits_of_be_bytes(u: u32)
    ensures
        seed_bits_of_bytes(be_bytes_of_u32(u)) == u,
{
    lemma_byte_masked(u >> 24);
    lemma_byte_masked(u >> 16);
    lemma_byte_masked(u >> 8);
    lemma_byte_masked(u);
    assert((((u >> 24) & 0xff) << 24) | (((u >> 16) & 0xff) << 16) | (((u >> 8) & 0xff) << 8) | (u
        & 0xff) == u) by (bit_vector);
}

fn bits_of_i32(v: i32) -> (u: u32)
    ensures
        u == i32_bits(v),
{
    if v >= 0 {
        v as u32
    } else {
        ((v as i64) + 0x1_0000_0000i64) as u32
    }
}

fn i32_from_bits(u: u32) -> (v: i32)
    ensures
        v == i32_of_bits(u),
{
    if u < 0x8000_0000 {
        u as i32
    } else {
        ((u as i64) - 0x1_0000_0000i64) as i32
    }
}

fn be_bytes(u: u32) -> (bytes: Vec<u8>)
    ensures
        bytes@ == be_bytes_of_u32(u),
{
    proof {
        lemma_byte_masked(u >> 24);
        lemma_byte_masked(u >> 16);
        lemma_byte_masked(u >> 8);
        lemma_byte_masked(u);
    }
    let mut bytes: Vec<u8> = Vec::new();
    bytes.push(((u >> 24) & 0xff) as u8);
    bytes.push(((u >> 16) & 0xff) as u8);
    bytes.push(((u >> 8) & 0xff) as u8);
    bytes.push((u & 0xff) as u8);
    proof {
        assert(bytes@ =~= be_bytes_of_u32(u));
    }
    bytes
}

fn fold_be(bytes: &Vec<u8>) -> (acc: u32)
    ensures
        acc == be_fold_u32(bytes@),
{
    let n = bytes.len();
    let mut acc: u32 = 0;
    let mut i: usize = 0;
    proof {
        assert(bytes@.take(0) =~= Seq::<u8>::empty());
    }
    while i < n
        invariant
            i <= n,
            n == bytes@.len(),
            acc == be_fold_u32(bytes@.take(i as int)),
        decreases n - i,
    {
        let b = bytes[i];
        acc = (acc << 8) | (b as u32);
        proof {
            assert(bytes@.take(i as int + 1).drop_last() =~= bytes@.take(i as int));
            assert(bytes@.take(i as int + 1).last() == bytes@[i as int]);
        }
        i = i + 1;
    }
    proof {
        assert(bytes@.take(n as int) =~= bytes@);
    }
    acc
}

/// Encode a signed 32-bit value (row boundary or shuffle offset) as an
/// opaque token.
pub fn encode_i32(v: i32) -> (r: String)
    ensures
        r@ == encoded_i32(v),
{
    let bytes = be_bytes(bits_of_i32(v));
    b64_encode(bytes.as_slice())
}

/// Encode a seed bit pattern as an opaque token.
pub fn encode_seed(u: u32) -> (r: String)
    ensures
        r@ == encoded_seed(u),
{
    let bytes = be_bytes(u);
    b64_encode(bytes.as_slice())
}

/// Decode an integer token. Fails exactly when the text is not valid
/// base64; any decoded byte sequence, of whatever length, is folded
/// big-endian into an `i32`. Decoding inverts `encode_i32`.
pub fn decode_i32(token: &str) -> (r: Result<i32, GqlError>)
    ensures
        r matches Ok(v) ==> decoded_i32_of(token@) == Some(v),
        r is Err <==> decoded_i32_of(token@) is None,
        r matches Err(e) ==> e == GqlError::DecodeError,
        forall|v: i32| token@ == encoded_i32(v) ==> r == Ok::<i32, GqlError>(v),
{
    let decoded = b64_decode(token);
    match decoded {
        Ok(bytes) => {
            let v = i32_from_bits(fold_be(&bytes));
            proof {
                assert forall|w: i32| token@ == encoded_i32(w) implies v == w by {
                    assert(b64_decoded(token@) == Some(be_bytes_of_u32(i32_bits(w))));
                    lemma_be_fold_of_be_bytes(i32_bits(w));
                    lemma_i32_bits_round_trip(w);
                }
            }
            Ok(v)
        },
        Err(_) => {
            proof {
                assert forall|w: i32| token@ != encoded_i32(w) by {
                    if token@ == encoded_i32(w) {
                        assert(b64_decoded(token@) == Some(be_bytes_of_u32(i32_bits(w))));
                    }
                }
            }
            Err(GqlError::DecodeError)
        },
    }
}

fn nth_or_zero(bytes: &Vec<u8>, i: usize) -> (b: u8)
    ensures
        b == byte_or_zero(bytes@, i as int),
{
    if i < bytes.len() {
        bytes[i]
    } else {
        0
    }
}

/// Decode a seed token. Fails exactly when the text is not valid base64;
/// the first four decoded bytes are reassembled big-endian, missing bytes
/// read as zero. Decoding inverts `encode_seed`.
pub fn decode_seed(token: &str) -> (r: Result<u32, GqlError>)
    ensures
        r matches Ok(u) ==> decoded_seed_of(token@) == Some(u),
        r is Err <==> decoded_seed_of(token@) is None,
        r matches Err(e) ==> e == GqlError::DecodeError,
        forall|u: u32| token@ == encoded_seed(u) ==> r == Ok::<u32, GqlError>(u),
{
    let decoded = b64_decode(token);
    match decoded {
        Ok(bytes) => {
            let b0 = nth_or_zero(&bytes, 0);
            let b1 = nth_or_zero(&bytes, 1);
            let b2 = nth_or_zero(&bytes, 2);
            let b3 = nth_or_zero(&bytes, 3);
            let u = ((b0 as u32) << 24) | ((b1 as u32) << 16) | ((b2 as u32) << 8) | (b3 as u32);
            proof {
                assert forall|w: u32| token@ == encoded_seed(w) implies u == w by {
                    assert(b64_decoded(token@) == Some(be_bytes_of_u32(w)));
                    lemma_seed_bits_of_be_bytes(w);
                }
            }
            Ok(u)
        },
        Err(_) => {
            proof {
                assert forall|w: u32| token@ != encoded_seed(w) by {
                    if token@ == encoded_seed(w) {
                        assert(b64_decoded(token@) == Some(be_bytes_of_u32(w)));
                    }
                }
            }
            Err(GqlError::DecodeError)
        },
    }
}

} // verus!
