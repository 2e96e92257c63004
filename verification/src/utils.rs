//! The digest that a client signs: the declared channel state bound to the
//! request body.

use vstd::prelude::*;

use crate::types::uint::{
    big_endian, lemma_big_endian_injective, lemma_big_endian_len, pow2_256,
};
use crate::types::U256;

verus! {

/// The Keccak-256 digest of `bytes`.
pub uninterp spec fn keccak256_digest(bytes: Seq<u8>) -> Seq<u8>;

/// Calls `ethers::utils::keccak256`, which feeds `bytes` to a Keccak-256
/// sponge and returns its 32 bytes of output. The digest is a function of
/// the input alone, which `keccak256_digest` names.
#[verifier::external_body]
fn keccak256(bytes: &[u8]) -> (digest: [u8; 32])
    ensures
        digest@ == keccak256_digest(bytes@),
{
    ethers::utils::keccak256(bytes)
}

/// What is hashed: the three integers, 32 bytes each and most significant
/// byte first, followed by the body as it is. No lengths, no separators.
pub open spec fn message_preimage(channel_id: nat, balance: nat, nonce: nat, body: Seq<u8>) -> Seq<u8> {
    big_endian(channel_id, 32) + big_endian(balance, 32) + big_endian(nonce, 32) + body
}

/// The digest of a declared channel state and a body.
pub open spec fn message_digest(channel_id: nat, balance: nat, nonce: nat, body: Seq<u8>) -> Seq<u8> {
    keccak256_digest(message_preimage(channel_id, balance, nonce, body))
}

/// Appends `bytes` to `out`.
fn append(out: &mut Vec<u8>, bytes: &[u8])
    ensures
        final(out)@ == old(out)@ + bytes@,
{
    let mut i: usize = 0;
    while i < bytes.len()
        invariant
            0 <= i <= bytes@.len(),
            out@ == old(out)@ + bytes@.subrange(0, i as int),
        decreases bytes@.len() - i,
    {
        out.push(bytes[i]);
        i += 1;
    }
    assert(bytes@.subrange(0, bytes@.len() as int) == bytes@);
}

/// The bytes that are hashed for a declared channel state and a body.
pub fn create_preimage(channel_id: U256, balance: U256, nonce: U256, body: &[u8]) -> (preimage: Vec<u8>)
    ensures
        preimage@ == message_preimage(channel_id@, balance@, nonce@, body@),
{
    let mut out: Vec<u8> = Vec::new();
    let id_bytes = channel_id.to_be_bytes();
    append(&mut out, id_bytes.as_slice());
    let balance_bytes = balance.to_be_bytes();
    append(&mut out, balance_bytes.as_slice());
    let nonce_bytes = nonce.to_be_bytes();
    append(&mut out, nonce_bytes.as_slice());
    append(&mut out, body);
    assert(out@ == message_preimage(channel_id@, balance@, nonce@, body@));
    out
}

/// The digest that the client must have signed for this channel state and
/// body: the Keccak-256 hash of [`message_preimage`].
pub fn create_message(channel_id: U256, balance: U256, nonce: U256, body: &[u8]) -> (message: Vec<u8>)
    ensures
        message@ == message_digest(channel_id@, balance@, nonce@, body@),
        message@.len() == 32,
{
    let preimage = create_preimage(channel_id, balance, nonce, body);
    let digest = keccak256(preimage.as_slice());
    let mut message: Vec<u8> = Vec::new();
    append(&mut message, digest.as_slice());
    message
}

/// The digest is a function of the declared state and the body: the same
/// inputs always give the same digest.
pub proof fn lemma_digest_deterministic(
    channel_id: nat,
    balance: nat,
    nonce: nat,
    body: Seq<u8>,
    other_channel_id: nat,
    other_balance: nat,
    other_nonce: nat,
    other_body: Seq<u8>,
)
    requires
        channel_id == other_channel_id,
        balance == other_balance,
        nonce == other_nonce,
        body == other_body,
    ensures
        message_digest(channel_id, balance, nonce, body) == message_digest(
            other_channel_id,
            other_balance,
            other_nonce,
            other_body,
        ),
{
}

/// What is hashed holds the declared state and the body in full: two
/// requests with the same pre-image declare the same channel, balance and
/// nonce and carry the same body.
pub proof fn lemma_preimage_injective(
    channel_id: nat,
    balance: nat,
    nonce: nat,
    body: Seq<u8>,
    other_channel_id: nat,
    other_balance: nat,
    other_nonce: nat,
    other_body: Seq<u8>,
)
    requires
        channel_id < pow2_256() && balance < pow2_256() && nonce < pow2_256(),
        other_channel_id < pow2_256() && other_balance < pow2_256() && other_nonce < pow2_256(),
        message_preimage(channel_id, balance, nonce, body) == message_preimage(
            other_channel_id,
            other_balance,
            other_nonce,
            other_body,
        ),
    ensures
        channel_id == other_channel_id,
        balance == other_balance,
        nonce == other_nonce,
        body == other_body,
{
    let left = message_preimage(channel_id, balance, nonce, body);
    let right = message_preimage(other_channel_id, other_balance, other_nonce, other_body);
    lemma_big_endian_len(channel_id, 32);
    lemma_big_endian_len(balance, 32);
    lemma_big_endian_len(nonce, 32);
    lemma_big_endian_len(other_channel_id, 32);
    lemma_big_endian_len(other_balance, 32);
    lemma_big_endian_len(other_nonce, 32);
    assert(left.subrange(0, 32) == big_endian(channel_id, 32));
    assert(right.subrange(0, 32) == big_endian(other_channel_id, 32));
    assert(left.subrange(32, 64) == big_endian(balance, 32));
    assert(right.subrange(32, 64) == big_endian(other_balance, 32));
    assert(left.subrange(64, 96) == big_endian(nonce, 32));
    assert(right.subrange(64, 96) == big_endian(other_nonce, 32));
    assert(left.skip(96) == body);
    assert(right.skip(96) == other_body);
    lemma_big_endian_injective(channel_id, other_channel_id);
    lemma_big_endian_injective(balance, other_balance);
    lemma_big_endian_injective(nonce, other_nonce);
}

} // verus!
