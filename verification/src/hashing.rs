//! Proposal identity: a proposal's id is the BLAKE2b-256 digest of a
//! canonical byte serialization of its transaction, combined with the digest
//! of its description, so that identical content always yields the same id.

use vstd::prelude::*;

use crate::codec::{
    append_bytes, compact_u32, le64_of, lemma_compact_same_width, lemma_u128_le_injective,
    lemma_u32_le_injective, lemma_u64_le_injective, push_compact_u32, push_u128_le, push_u32_le,
    push_u64_le, read_le64, u128_le, u32_le, u64_le,
};
use crate::types::{AccountId, ProposalId, Transaction, TransactionV};

verus! {

/// The BLAKE2b-256 digest of a byte sequence, a pure function of the bytes.
pub uninterp spec fn blake2b_256_of(input: Seq<u8>) -> Seq<u8>;

/// Relies on `ink_env::hash_bytes::<Blake2x256>`: the BLAKE2b-256 digest of
/// the input bytes, 32 bytes long and a function of the input alone.
#[verifier::external_body]
fn blake2b_256(input: &[u8]) -> (r: Vec<u8>)
    ensures
        r@ == blake2b_256_of(input@),
        r@.len() == 32,
{
    let mut output = [0u8; 32];
    ink_env::hash_bytes::<ink_env::hash::Blake2x256>(input, &mut output);
    output.to_vec()
}

/// The 32 bytes of an account identifier, words in order, each little-endian.
pub open spec fn account_le(a: AccountId) -> Seq<u8> {
    u64_le(a.w0) + u64_le(a.w1) + u64_le(a.w2) + u64_le(a.w3)
}

/// The digest of a proposal description's UTF-8 bytes.
pub open spec fn description_digest(description: Seq<char>) -> Seq<u8> {
    blake2b_256_of(vstd::utf8::encode_utf8(description))
}

/// The canonical byte serialization hashed to form a proposal id: the
/// transaction fields in order (payload with a compact length prefix),
/// followed by the description digest.
pub open spec fn proposal_preimage(t: TransactionV, description_hash: Seq<u8>) -> Seq<u8> {
    account_le(t.callee) + u32_le(t.selector) + compact_u32(t.input.len() as u32) + t.input
        + u128_le(t.transferred_value) + u64_le(t.gas_limit) + description_hash
}

/// The proposal id read from a 32-byte digest, as four little-endian words.
pub open spec fn id_from_digest(d: Seq<u8>) -> ProposalId
    recommends
        d.len() == 32,
{
    ProposalId {
        w0: le64_of(d.subrange(0, 8)),
        w1: le64_of(d.subrange(8, 16)),
        w2: le64_of(d.subrange(16, 24)),
        w3: le64_of(d.subrange(24, 32)),
    }
}

/// The id of a proposal: a pure function of its transaction and description.
pub open spec fn proposal_id_of(t: TransactionV, description: Seq<char>) -> ProposalId {
    id_from_digest(blake2b_256_of(proposal_preimage(t, description_digest(description))))
}

/// Two accounts with the same canonical bytes are equal.
pub proof fn lemma_account_le_injective(x: AccountId, y: AccountId)
    requires
        account_le(x) == account_le(y),
    ensures
        x == y,
{
    let ax = account_le(x);
    let ay = account_le(y);
    assert(u64_le(x.w0) =~= ax.subrange(0, 8));
    assert(u64_le(x.w1) =~= ax.subrange(8, 16));
    assert(u64_le(x.w2) =~= ax.subrange(16, 24));
    assert(u64_le(x.w3) =~= ax.subrange(24, 32));
    assert(u64_le(y.w0) =~= ay.subrange(0, 8));
    assert(u64_le(y.w1) =~= ay.subrange(8, 16));
    assert(u64_le(y.w2) =~= ay.subrange(16, 24));
    assert(u64_le(y.w3) =~= ay.subrange(24, 32));
    lemma_u64_le_injective(x.w0, y.w0);
    lemma_u64_le_injective(x.w1, y.w1);
    lemma_u64_le_injective(x.w2, y.w2);
    lemma_u64_le_injective(x.w3, y.w3);
}

/// The canonical serialization is injective: two distinct pairs of
/// transaction and description digest never produce the same preimage, so
/// a proposal-id collision can only come from a digest collision of the
/// underlying hash, never from the encoding.
pub proof fn lemma_preimage_injective(
    t1: TransactionV,
    h1: Seq<u8>,
    t2: TransactionV,
    h2: Seq<u8>,
)
    requires
        h1.len() == 32,
        h2.len() == 32,
        t1.input.len() <= u32::MAX,
        t2.input.len() <= u32::MAX,
        proposal_preimage(t1, h1) == proposal_preimage(t2, h2),
    ensures
        t1 == t2,
        h1 == h2,
{
    let p = proposal_preimage(t1, h1);
    let len = p.len() as int;
    // peel the description digest off the right
    assert(h1 =~= p.subrange(len - 32, len));
    assert(h2 =~= p.subrange(len - 32, len));
    // then the gas limit
    let q = p.subrange(0, len - 32);
    let qlen = q.len() as int;
    assert(account_le(t1.callee) + u32_le(t1.selector) + compact_u32(t1.input.len() as u32)
        + t1.input + u128_le(t1.transferred_value) + u64_le(t1.gas_limit) =~= q);
    assert(account_le(t2.callee) + u32_le(t2.selector) + compact_u32(t2.input.len() as u32)
        + t2.input + u128_le(t2.transferred_value) + u64_le(t2.gas_limit) =~= q);
    assert(u64_le(t1.gas_limit) =~= q.subrange(qlen - 8, qlen));
    assert(u64_le(t2.gas_limit) =~= q.subrange(qlen - 8, qlen));
    lemma_u64_le_injective(t1.gas_limit, t2.gas_limit);
    // then the transferred value
    let s = q.subrange(0, qlen - 8);
    let slen = s.len() as int;
    assert(account_le(t1.callee) + u32_le(t1.selector) + compact_u32(t1.input.len() as u32)
        + t1.input + u128_le(t1.transferred_value) =~= s);
    assert(account_le(t2.callee) + u32_le(t2.selector) + compact_u32(t2.input.len() as u32)
        + t2.input + u128_le(t2.transferred_value) =~= s);
    assert(u128_le(t1.transferred_value) =~= s.subrange(slen - 16, slen));
    assert(u128_le(t2.transferred_value) =~= s.subrange(slen - 16, slen));
    lemma_u128_le_injective(t1.transferred_value, t2.transferred_value);
    // what remains is the fixed head plus the length-prefixed payload
    let u = s.subrange(0, slen - 16);
    let c1 = compact_u32(t1.input.len() as u32);
    let c2 = compact_u32(t2.input.len() as u32);
    assert(account_le(t1.callee) + u32_le(t1.selector) + c1 + t1.input =~= u);
    assert(account_le(t2.callee) + u32_le(t2.selector) + c2 + t2.input =~= u);
    // the first byte of the compact prefix sits at offset 36 on both sides
    // and fixes the prefix width, and with it the payload length
    assert(u.len() == 36 + c1.len() + t1.input.len());
    assert(u.len() == 36 + c2.len() + t2.input.len());
    assert(c1[0] == u[36]) by {
        assert((account_le(t1.callee) + u32_le(t1.selector) + c1 + t1.input)[36] == c1[0]);
    }
    assert(c2[0] == u[36]) by {
        assert((account_le(t2.callee) + u32_le(t2.selector) + c2 + t2.input)[36] == c2[0]);
    }
    lemma_compact_same_width(t1.input.len() as u32, t2.input.len() as u32);
    let clen = c1.len() as int;
    assert(t1.input.len() == t2.input.len());
    let n = t1.input.len() as int;
    // so the payloads occupy the same positions
    assert(t1.input =~= u.subrange(36 + clen, 36 + clen + n));
    assert(t2.input =~= u.subrange(36 + clen, 36 + clen + n));
    // and the fixed head splits into callee and selector
    assert(account_le(t1.callee) =~= u.subrange(0, 32));
    assert(account_le(t2.callee) =~= u.subrange(0, 32));
    lemma_account_le_injective(t1.callee, t2.callee);
    assert(u32_le(t1.selector) =~= u.subrange(32, 36));
    assert(u32_le(t2.selector) =~= u.subrange(32, 36));
    lemma_u32_le_injective(t1.selector, t2.selector);
}

/// Hashes a proposal description to its 32-byte digest.
pub fn hash_description(description: &str) -> (r: Vec<u8>)
    ensures
        r@ == description_digest(description@),
        r@.len() == 32,
{
    blake2b_256(description.as_bytes())
}

/// Computes the id of the proposal with the given transaction and
/// description.
pub fn compute_proposal_id(transaction: &Transaction, description: &str) -> (r: ProposalId)
    requires
        transaction.input@.len() <= u32::MAX,
    ensures
        r == proposal_id_of(transaction@, description@),
{
    let dh = hash_description(description);
    let mut buf: Vec<u8> = Vec::new();
    push_u64_le(&mut buf, transaction.callee.w0);
    push_u64_le(&mut buf, transaction.callee.w1);
    push_u64_le(&mut buf, transaction.callee.w2);
    push_u64_le(&mut buf, transaction.callee.w3);
    push_u32_le(&mut buf, transaction.selector);
    push_compact_u32(&mut buf, transaction.input.len() as u32);
    append_bytes(&mut buf, transaction.input.as_slice());
    push_u128_le(&mut buf, transaction.transferred_value);
    push_u64_le(&mut buf, transaction.gas_limit);
    append_bytes(&mut buf, dh.as_slice());
    assert(buf@ =~= proposal_preimage(transaction@, description_digest(description@)));
    let digest = blake2b_256(buf.as_slice());
    let w0 = read_le64(&digest, 0);
    let w1 = read_le64(&digest, 8);
    let w2 = read_le64(&digest, 16);
    let w3 = read_le64(&digest, 24);
    ProposalId { w0, w1, w2, w3 }
}

} // verus!
