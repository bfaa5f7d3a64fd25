//! Request hashes: SHA-256 over a fixed, length-prefixed encoding of a
//! request's immutable fields.
use vstd::prelude::*;
use vstd::utf8::encode_utf8;

verus! {

/// What SHA-256 gives for `data`.
pub uninterp spec fn sha256_of(data: Seq<u8>) -> Seq<u8>;

/// Relies on `sha2::Sha256::digest`: the SHA-256 digest of `data`, which is
/// 32 bytes long.
#[verifier::external_body]
fn sha256(data: &Vec<u8>) -> (r: Vec<u8>)
    ensures
        r@ == sha256_of(data@),
        r@.len() == 32,
{
    <sha2::Sha256 as sha2::Digest>::digest(data.as_slice()).to_vec()
}

/// `n` as 8 bytes, most significant first.
pub open spec fn be_u64(n: u64) -> Seq<u8> {
    seq![
        ((n >> 56u64) & 0xffu64) as u8,
        ((n >> 48u64) & 0xffu64) as u8,
        ((n >> 40u64) & 0xffu64) as u8,
        ((n >> 32u64) & 0xffu64) as u8,
        ((n >> 24u64) & 0xffu64) as u8,
        ((n >> 16u64) & 0xffu64) as u8,
        ((n >> 8u64) & 0xffu64) as u8,
        (n & 0xffu64) as u8,
    ]
}

/// `n` as 16 bytes, most significant first.
pub open spec fn be_u128(n: u128) -> Seq<u8> {
    be_u64((n >> 64u128) as u64) + be_u64((n & 0xffff_ffff_ffff_ffffu128) as u64)
}

/// A string as its UTF-8 length in 8 bytes, then its UTF-8 bytes.
pub open spec fn field(s: Seq<char>) -> Seq<u8> {
    be_u64(encode_utf8(s).len() as u64) + encode_utf8(s)
}

fn push_u64(out: &mut Vec<u8>, n: u64)
    ensures
        final(out)@ == old(out)@ + be_u64(n),
{
    out.push(((n >> 56u64) & 0xffu64) as u8);
    out.push(((n >> 48u64) & 0xffu64) as u8);
    out.push(((n >> 40u64) & 0xffu64) as u8);
    out.push(((n >> 32u64) & 0xffu64) as u8);
    out.push(((n >> 24u64) & 0xffu64) as u8);
    out.push(((n >> 16u64) & 0xffu64) as u8);
    out.push(((n >> 8u64) & 0xffu64) as u8);
    out.push((n & 0xffu64) as u8);
    assert(final(out)@ =~= old(out)@ + be_u64(n));
}

fn push_u128(out: &mut Vec<u8>, n: u128)
    ensures
        final(out)@ == old(out)@ + be_u128(n),
{
    push_u64(out, (n >> 64u128) as u64);
    push_u64(out, (n & 0xffff_ffff_ffff_ffffu128) as u64);
    assert(final(out)@ =~= old(out)@ + be_u128(n));
}

fn push_field(out: &mut Vec<u8>, s: &String)
    ensures
        final(out)@ == old(out)@ + field(s@),
{
    let b = s.as_str().as_bytes();
    push_u64(out, b.len() as u64);
    let ghost mid = out@;
    let mut i: usize = 0;
    while i < b.len()
        invariant
            b@ == encode_utf8(s@),
            i <= b@.len(),
            out@ == mid + b@.take(i as int),
        decreases b@.len() - i,
    {
        out.push(b[i]);
        i = i + 1;
        assert(out@ =~= mid + b@.take(i as int));
    }
    assert(b@.take(i as int) =~= b@);
    assert(final(out)@ =~= old(out)@ + field(s@));
}

/// The bytes that a mint request's hash is taken over.
pub open spec fn mint_preimage(
    nonce: u64,
    requester: Seq<char>,
    amount: u128,
    tx_id: Seq<char>,
    deposit_address: Seq<char>,
) -> Seq<u8> {
    be_u64(nonce) + field(requester) + be_u128(amount) + field(tx_id) + field(deposit_address)
}

/// The bytes that a burn request's hash is taken over.
pub open spec fn burn_preimage(nonce: u64, requester: Seq<char>, amount: u128) -> Seq<u8> {
    be_u64(nonce) + field(requester) + be_u128(amount)
}

pub open spec fn mint_hash(
    nonce: u64,
    requester: Seq<char>,
    amount: u128,
    tx_id: Seq<char>,
    deposit_address: Seq<char>,
) -> Seq<u8> {
    sha256_of(mint_preimage(nonce, requester, amount, tx_id, deposit_address))
}

pub open spec fn burn_hash(nonce: u64, requester: Seq<char>, amount: u128) -> Seq<u8> {
    sha256_of(burn_preimage(nonce, requester, amount))
}

/// The hash of a mint request with these immutable fields.
pub fn hash_mint_request(
    nonce: u64,
    requester: &String,
    amount: u128,
    tx_id: &String,
    deposit_address: &String,
) -> (r: Vec<u8>)
    ensures
        r@ == mint_hash(nonce, requester@, amount, tx_id@, deposit_address@),
        r@.len() == 32,
{
    let mut data: Vec<u8> = Vec::new();
    push_u64(&mut data, nonce);
    push_field(&mut data, requester);
    push_u128(&mut data, amount);
    push_field(&mut data, tx_id);
    push_field(&mut data, deposit_address);
    assert(data@ =~= mint_preimage(nonce, requester@, amount, tx_id@, deposit_address@));
    sha256(&data)
}

/// The hash of a burn request with these immutable fields.
pub fn hash_burn_request(nonce: u64, requester: &String, amount: u128) -> (r: Vec<u8>)
    ensures
        r@ == burn_hash(nonce, requester@, amount),
        r@.len() == 32,
{
    let mut data: Vec<u8> = Vec::new();
    push_u64(&mut data, nonce);
    push_field(&mut data, requester);
    push_u128(&mut data, amount);
    assert(data@ =~= burn_preimage(nonce, requester@, amount));
    sha256(&data)
}

proof fn lemma_be_u64_injective(a: u64, b: u64)
    requires
        be_u64(a) == be_u64(b),
    ensures
        a == b,
{
    assert(be_u64(a)[0] == be_u64(b)[0]);
    assert(be_u64(a)[1] == be_u64(b)[1]);
    assert(be_u64(a)[2] == be_u64(b)[2]);
    assert(be_u64(a)[3] == be_u64(b)[3]);
    assert(be_u64(a)[4] == be_u64(b)[4]);
    assert(be_u64(a)[5] == be_u64(b)[5]);
    assert(be_u64(a)[6] == be_u64(b)[6]);
    assert(be_u64(a)[7] == be_u64(b)[7]);
    assert(a == b) by (bit_vector)
        requires
            ((a >> 56u64) & 0xffu64) as u8 == ((b >> 56u64) & 0xffu64) as u8,
            ((a >> 48u64) & 0xffu64) as u8 == ((b >> 48u64) & 0xffu64) as u8,
            ((a >> 40u64) & 0xffu64) as u8 == ((b >> 40u64) & 0xffu64) as u8,
            ((a >> 32u64) & 0xffu64) as u8 == ((b >> 32u64) & 0xffu64) as u8,
            ((a >> 24u64) & 0xffu64) as u8 == ((b >> 24u64) & 0xffu64) as u8,
            ((a >> 16u64) & 0xffu64) as u8 == ((b >> 16u64) & 0xffu64) as u8,
            ((a >> 8u64) & 0xffu64) as u8 == ((b >> 8u64) & 0xffu64) as u8,
            (a & 0xffu64) as u8 == (b & 0xffu64) as u8,
    ;
}

/// A mint request's hash is taken over bytes that depend on nothing but its
/// immutable fields, and two requests that differ in their nonce have their
/// hashes taken over different bytes, whatever their other fields.
pub proof fn lemma_mint_preimage_separates_nonces(
    n1: u64,
    n2: u64,
    requester: Seq<char>,
    amount: u128,
    tx_id: Seq<char>,
    deposit_address: Seq<char>,
)
    requires
        n1 != n2,
    ensures
        mint_preimage(n1, requester, amount, tx_id, deposit_address) != mint_preimage(
            n2,
            requester,
            amount,
            tx_id,
            deposit_address,
        ),
{
    let p1 = mint_preimage(n1, requester, amount, tx_id, deposit_address);
    let p2 = mint_preimage(n2, requester, amount, tx_id, deposit_address);
    if p1 == p2 {
        assert(p1.take(8) =~= be_u64(n1));
        assert(p2.take(8) =~= be_u64(n2));
        lemma_be_u64_injective(n1, n2);
    }
}

/// Two burn requests that differ in their nonce have their hashes taken over
/// different bytes, whatever their other fields.
pub proof fn lemma_burn_preimage_separates_nonces(n1: u64, n2: u64, requester: Seq<char>, amount: u128)
    requires
        n1 != n2,
    ensures
        burn_preimage(n1, requester, amount) != burn_preimage(n2, requester, amount),
{
    let p1 = burn_preimage(n1, requester, amount);
    let p2 = burn_preimage(n2, requester, amount);
    if p1 == p2 {
        assert(p1.take(8) =~= be_u64(n1));
        assert(p2.take(8) =~= be_u64(n2));
        lemma_be_u64_injective(n1, n2);
    }
}

} // verus!
