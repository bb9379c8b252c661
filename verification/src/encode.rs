//! Fingerprinting of argument tuples. Packed concatenation of
//! variable-length fields is collision-prone: `("a", "bc")` and
//! `("ab", "c")` pack to the same bytes. The safe encodings here either
//! length-prefix each field or insert a delimiter, and their freedom
//! from collisions is proved; hashing is done by Keccak-256 behind a
//! trusted boundary.

use vstd::prelude::*;
use crate::address::Address;
use crate::uint256::Uint256;

verus! {

/// The 8-byte big-endian encoding of a 64-bit length.
pub open spec fn spec_be8(n: u64) -> Seq<u8> {
    seq![
        (n >> 56) as u8,
        (n >> 48) as u8,
        (n >> 40) as u8,
        (n >> 32) as u8,
        (n >> 24) as u8,
        (n >> 16) as u8,
        (n >> 8) as u8,
        n as u8,
    ]
}

/// The 4-byte big-endian encoding of a 32-bit value.
pub open spec fn spec_be4(n: u32) -> Seq<u8> {
    seq![(n >> 24) as u8, (n >> 16) as u8, (n >> 8) as u8, n as u8]
}

/// The 16-byte big-endian encoding of a 128-bit value.
pub open spec fn spec_be16(n: u128) -> Seq<u8> {
    seq![
        (n >> 120) as u8,
        (n >> 112) as u8,
        (n >> 104) as u8,
        (n >> 96) as u8,
        (n >> 88) as u8,
        (n >> 80) as u8,
        (n >> 72) as u8,
        (n >> 64) as u8,
        (n >> 56) as u8,
        (n >> 48) as u8,
        (n >> 40) as u8,
        (n >> 32) as u8,
        (n >> 24) as u8,
        (n >> 16) as u8,
        (n >> 8) as u8,
        n as u8,
    ]
}

/// Big-endian bytes determine the value: 64-bit case.
proof fn lemma_be8_injective(x: u64, y: u64)
    requires
        spec_be8(x) == spec_be8(y),
    ensures
        x == y,
{
    assert(spec_be8(x)[0] == spec_be8(y)[0]);
    assert(spec_be8(x)[1] == spec_be8(y)[1]);
    assert(spec_be8(x)[2] == spec_be8(y)[2]);
    assert(spec_be8(x)[3] == spec_be8(y)[3]);
    assert(spec_be8(x)[4] == spec_be8(y)[4]);
    assert(spec_be8(x)[5] == spec_be8(y)[5]);
    assert(spec_be8(x)[6] == spec_be8(y)[6]);
    assert(spec_be8(x)[7] == spec_be8(y)[7]);
    assert(((x >> 56) as u8 == (y >> 56) as u8 && (x >> 48) as u8 == (y >> 48) as u8 && (x >> 40)
        as u8 == (y >> 40) as u8 && (x >> 32) as u8 == (y >> 32) as u8 && (x >> 24) as u8 == (y
        >> 24) as u8 && (x >> 16) as u8 == (y >> 16) as u8 && (x >> 8) as u8 == (y >> 8) as u8 && x
        as u8 == y as u8) ==> x == y) by (bit_vector);
}

/// Big-endian bytes determine the value: 32-bit case.
proof fn lemma_be4_injective(x: u32, y: u32)
    requires
        spec_be4(x) == spec_be4(y),
    ensures
        x == y,
{
    assert(spec_be4(x)[0] == spec_be4(y)[0]);
    assert(spec_be4(x)[1] == spec_be4(y)[1]);
    assert(spec_be4(x)[2] == spec_be4(y)[2]);
    assert(spec_be4(x)[3] == spec_be4(y)[3]);
    assert(((x >> 24) as u8 == (y >> 24) as u8 && (x >> 16) as u8 == (y >> 16) as u8 && (x >> 8)
        as u8 == (y >> 8) as u8 && x as u8 == y as u8) ==> x == y) by (bit_vector);
}

/// Big-endian bytes determine the value: 128-bit case.
proof fn lemma_be16_injective(x: u128, y: u128)
    requires
        spec_be16(x) == spec_be16(y),
    ensures
        x == y,
{
    assert forall|k: int| 0 <= k < 16 implies spec_be16(x)[k] == spec_be16(y)[k] by {
    }
    assert(((x >> 120) as u8 == (y >> 120) as u8 && (x >> 112) as u8 == (y >> 112) as u8 && (x
        >> 104) as u8 == (y >> 104) as u8 && (x >> 96) as u8 == (y >> 96) as u8 && (x >> 88) as u8
        == (y >> 88) as u8 && (x >> 80) as u8 == (y >> 80) as u8 && (x >> 72) as u8 == (y >> 72)
        as u8 && (x >> 64) as u8 == (y >> 64) as u8 && (x >> 56) as u8 == (y >> 56) as u8 && (x
        >> 48) as u8 == (y >> 48) as u8 && (x >> 40) as u8 == (y >> 40) as u8 && (x >> 32) as u8
        == (y >> 32) as u8 && (x >> 24) as u8 == (y >> 24) as u8 && (x >> 16) as u8 == (y >> 16)
        as u8 && (x >> 8) as u8 == (y >> 8) as u8 && x as u8 == y as u8) ==> x == y)
        by (bit_vector);
}

/// `data` copied onto the end of `acc`.
fn concat_bytes(acc: Vec<u8>, data: &Vec<u8>) -> (r: Vec<u8>)
    ensures
        r@ == acc@ + data@,
{
    let mut out = acc;
    let ghost base = out@;
    proof {
        assert(out@ =~= base + data@.subrange(0, 0));
    }
    let mut i: usize = 0;
    while i < data.len()
        invariant
            i <= data@.len(),
            out@ == base + data@.subrange(0, i as int),
        decreases data@.len() - i,
    {
        out.push(data[i]);
        proof {
            assert(out@ =~= base + data@.subrange(0, i as int + 1));
        }
        i = i + 1;
    }
    proof {
        assert(data@.subrange(0, data@.len() as int) =~= data@);
    }
    out
}

/// The 8 big-endian bytes of `n`, as a vector.
fn be8_vec(n: u64) -> (r: Vec<u8>)
    ensures
        r@ == spec_be8(n),
{
    let mut out: Vec<u8> = Vec::new();
    out.push((n >> 56) as u8);
    out.push((n >> 48) as u8);
    out.push((n >> 40) as u8);
    out.push((n >> 32) as u8);
    out.push((n >> 24) as u8);
    out.push((n >> 16) as u8);
    out.push((n >> 8) as u8);
    out.push(n as u8);
    proof {
        assert(out@ =~= spec_be8(n));
    }
    out
}

/// The 4 big-endian bytes of `n`, as a vector.
fn be4_vec(n: u32) -> (r: Vec<u8>)
    ensures
        r@ == spec_be4(n),
{
    let mut out: Vec<u8> = Vec::new();
    out.push((n >> 24) as u8);
    out.push((n >> 16) as u8);
    out.push((n >> 8) as u8);
    out.push(n as u8);
    proof {
        assert(out@ =~= spec_be4(n));
    }
    out
}

/// The 16 big-endian bytes of `n`, as a vector.
fn be16_vec(n: u128) -> (r: Vec<u8>)
    ensures
        r@ == spec_be16(n),
{
    let mut out: Vec<u8> = Vec::new();
    out.push((n >> 120) as u8);
    out.push((n >> 112) as u8);
    out.push((n >> 104) as u8);
    out.push((n >> 96) as u8);
    out.push((n >> 88) as u8);
    out.push((n >> 80) as u8);
    out.push((n >> 72) as u8);
    out.push((n >> 64) as u8);
    out.push((n >> 56) as u8);
    out.push((n >> 48) as u8);
    out.push((n >> 40) as u8);
    out.push((n >> 32) as u8);
    out.push((n >> 24) as u8);
    out.push((n >> 16) as u8);
    out.push((n >> 8) as u8);
    out.push(n as u8);
    proof {
        assert(out@ =~= spec_be16(n));
    }
    out
}

/// Plain packed concatenation of two byte fields. Collision-prone for
/// variable-length fields: the boundary between them is not recorded.
pub fn encode_packed(a: &Vec<u8>, b: &Vec<u8>) -> (r: Vec<u8>)
    ensures
        r@ == a@ + b@,
{
    let out = concat_bytes(Vec::new(), a);
    let out = concat_bytes(out, b);
    proof {
        assert(Seq::<u8>::empty() + a@ + b@ =~= a@ + b@);
    }
    out
}

/// Packed concatenation with a zero byte between the fields.
pub open spec fn spec_delimited(a: Seq<u8>, b: Seq<u8>) -> Seq<u8> {
    a + seq![0u8] + b
}

/// Packed encoding with a delimiter byte between the two fields, so that
/// fields free of that byte cannot collide.
pub fn safe_encode_packed_with_delimiter(a: &Vec<u8>, b: &Vec<u8>) -> (r: Vec<u8>)
    ensures
        r@ == spec_delimited(a@, b@),
{
    let mut out = concat_bytes(Vec::new(), a);
    out.push(0u8);
    let out = concat_bytes(out, b);
    proof {
        assert((Seq::<u8>::empty() + a@).push(0u8) + b@ =~= spec_delimited(a@, b@));
    }
    out
}

/// For fields that never contain the delimiter byte, the delimited
/// encoding has no collisions: equal encodings mean equal fields.
pub proof fn lemma_delimited_injective(a1: Seq<u8>, b1: Seq<u8>, a2: Seq<u8>, b2: Seq<u8>)
    requires
        !a1.contains(0u8),
        !a2.contains(0u8),
        spec_delimited(a1, b1) == spec_delimited(a2, b2),
    ensures
        a1 == a2,
        b1 == b2,
{
    let e1 = spec_delimited(a1, b1);
    let e2 = spec_delimited(a2, b2);
    if a1.len() < a2.len() {
        assert(e1[a1.len() as int] == 0u8);
        assert(e2[a1.len() as int] == a2[a1.len() as int]);
        assert(a2.contains(0u8));
    } else if a2.len() < a1.len() {
        assert(e2[a2.len() as int] == 0u8);
        assert(e1[a2.len() as int] == a1[a2.len() as int]);
        assert(a1.contains(0u8));
    } else {
        let n = a1.len() as int;
        assert(e1.subrange(0, n) =~= a1);
        assert(e2.subrange(0, n) =~= a2);
        assert(a1 =~= a2);
        assert(e1.subrange(n + 1, e1.len() as int) =~= b1);
        assert(e2.subrange(n + 1, e2.len() as int) =~= b2);
        assert(b1 =~= b2);
    }
}

/// Each field preceded by its 8-byte big-endian length.
pub open spec fn spec_length_prefixed(a: Seq<u8>, b: Seq<u8>) -> Seq<u8> {
    spec_be8(a.len() as u64) + a + spec_be8(b.len() as u64) + b
}

/// Packed encoding with a length prefix before each field, so that no
/// two distinct pairs of fields can collide.
pub fn encode_length_prefixed(a: &Vec<u8>, b: &Vec<u8>) -> (r: Vec<u8>)
    ensures
        r@ == spec_length_prefixed(a@, b@),
{
    let out = be8_vec(a.len() as u64);
    let out = concat_bytes(out, a);
    let lb = be8_vec(b.len() as u64);
    let out = concat_bytes(out, &lb);
    let out = concat_bytes(out, b);
    proof {
        assert(spec_be8(a@.len() as u64) + a@ + spec_be8(b@.len() as u64) + b@
            =~= spec_length_prefixed(a@, b@));
    }
    out
}

/// The length-prefixed encoding has no collisions at all: equal
/// encodings mean equal fields.
pub proof fn lemma_length_prefixed_injective(a1: Seq<u8>, b1: Seq<u8>, a2: Seq<u8>, b2: Seq<u8>)
    requires
        a1.len() < 0x10000000000000000,
        b1.len() < 0x10000000000000000,
        a2.len() < 0x10000000000000000,
        b2.len() < 0x10000000000000000,
        spec_length_prefixed(a1, b1) == spec_length_prefixed(a2, b2),
    ensures
        a1 == a2,
        b1 == b2,
{
    let e1 = spec_length_prefixed(a1, b1);
    let e2 = spec_length_prefixed(a2, b2);
    assert(e1.subrange(0, 8) =~= spec_be8(a1.len() as u64));
    assert(e2.subrange(0, 8) =~= spec_be8(a2.len() as u64));
    lemma_be8_injective(a1.len() as u64, a2.len() as u64);
    let n = a1.len() as int;
    assert(e1.subrange(8, 8 + n) =~= a1);
    assert(e2.subrange(8, 8 + n) =~= a2);
    assert(a1 =~= a2);
    assert(e1.subrange(16 + n, e1.len() as int) =~= b1);
    assert(e2.subrange(16 + n, e2.len() as int) =~= b2);
    assert(b1 =~= b2);
}

/// Packed encoding of an address and an amount: fixed-width fields only,
/// 20 + 32 big-endian bytes, so the field boundary is always at the same
/// place and no two distinct pairs can collide.
pub open spec fn spec_packed_fixed(addr: Address, amount: Uint256) -> Seq<u8> {
    spec_be4(addr.hi) + spec_be16(addr.lo) + spec_be16(amount.hi) + spec_be16(amount.lo)
}

/// Packed encoding of fixed-size fields: the 20 address bytes followed
/// by the 32 amount bytes.
pub fn safe_encode_packed_fixed_types(addr: Address, amount: Uint256) -> (r: Vec<u8>)
    ensures
        r@ == spec_packed_fixed(addr, amount),
        r@.len() == 52,
{
    let out = be4_vec(addr.hi);
    let p2 = be16_vec(addr.lo);
    let out = concat_bytes(out, &p2);
    let p3 = be16_vec(amount.hi);
    let out = concat_bytes(out, &p3);
    let p4 = be16_vec(amount.lo);
    let out = concat_bytes(out, &p4);
    out
}

/// The fixed-width packed encoding has no collisions: equal encodings
/// mean the same address and the same amount.
pub proof fn lemma_packed_fixed_injective(
    addr1: Address,
    amount1: Uint256,
    addr2: Address,
    amount2: Uint256,
)
    requires
        spec_packed_fixed(addr1, amount1) == spec_packed_fixed(addr2, amount2),
    ensures
        addr1 == addr2,
        amount1 == amount2,
{
    let e1 = spec_packed_fixed(addr1, amount1);
    let e2 = spec_packed_fixed(addr2, amount2);
    assert(e1.subrange(0, 4) =~= spec_be4(addr1.hi));
    assert(e2.subrange(0, 4) =~= spec_be4(addr2.hi));
    lemma_be4_injective(addr1.hi, addr2.hi);
    assert(e1.subrange(4, 20) =~= spec_be16(addr1.lo));
    assert(e2.subrange(4, 20) =~= spec_be16(addr2.lo));
    lemma_be16_injective(addr1.lo, addr2.lo);
    assert(e1.subrange(20, 36) =~= spec_be16(amount1.hi));
    assert(e2.subrange(20, 36) =~= spec_be16(amount2.hi));
    lemma_be16_injective(amount1.hi, amount2.hi);
    assert(e1.subrange(36, 52) =~= spec_be16(amount1.lo));
    assert(e2.subrange(36, 52) =~= spec_be16(amount2.lo));
    lemma_be16_injective(amount1.lo, amount2.lo);
}

/// What Keccak-256 returns for the given input bytes. The digest is a
/// function of the input alone; its definition is left to the hashing
/// crate and is not restated here.
pub uninterp spec fn keccak_of(data: Seq<u8>) -> Seq<u8>;

/// Relies on sha3::Keccak256 (through the Digest interface): the
/// Keccak-256 digest of the input bytes, always 32 bytes long and
/// depending on the input bytes alone.
#[verifier::external_body]
fn keccak256(data: &Vec<u8>) -> (r: Vec<u8>)
    ensures
        r@ == keccak_of(data@),
        r@.len() == 32,
{
    let mut hasher = <sha3::Keccak256 as sha3::Digest>::new();
    sha3::Digest::update(&mut hasher, data.as_slice());
    let out = sha3::Digest::finalize(hasher);
    out.as_slice().to_vec()
}

/// The Keccak-256 fingerprint of two packed fields. Kept for
/// comparison: because the packed bytes of two distinct pairs can be
/// identical, so can their fingerprints.
pub fn packed_fingerprint(a: &Vec<u8>, b: &Vec<u8>) -> (r: Vec<u8>)
    ensures
        r@ == keccak_of(a@ + b@),
        r@.len() == 32,
{
    let packed = encode_packed(a, b);
    keccak256(&packed)
}

/// The Keccak-256 fingerprint of two length-prefixed fields: distinct
/// pairs always hash distinct encodings.
pub fn fingerprint(a: &Vec<u8>, b: &Vec<u8>) -> (r: Vec<u8>)
    ensures
        r@ == keccak_of(spec_length_prefixed(a@, b@)),
        r@.len() == 32,
{
    let encoded = encode_length_prefixed(a, b);
    keccak256(&encoded)
}

/// What the standard ABI encoding of a pair of strings is. Head/tail
/// encoding with per-field offsets and lengths; its definition is left
/// to the encoding crate and is not restated here.
pub uninterp spec fn abi_params_of(a: Seq<char>, b: Seq<char>) -> Seq<u8>;

/// Relies on alloy_sol_types: `abi_encode_params` for two strings is
/// the standard ABI encoding, a function of the two strings alone.
#[verifier::external_body]
pub fn safe_encode(a: &String, b: &String) -> (r: Vec<u8>)
    ensures
        r@ == abi_params_of(a@, b@),
{
    <(alloy_sol_types::sol_data::String, alloy_sol_types::sol_data::String) as
        alloy_sol_types::SolType>::abi_encode_params(&(a.as_str(), b.as_str()))
}

} // verus!
