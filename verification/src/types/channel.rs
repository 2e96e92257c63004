//! Channel records and the per-request bundle that the pipeline works on.

use vstd::prelude::*;

use crate::types::address::Address;
use crate::types::uint::U256;

verus! {

/// The state of one payment channel, as the server records it and as a client
/// declares it with a request.
#[derive(Debug, Clone, Copy, PartialEq, Eq)]
pub struct PaymentChannel {
    /// The address of the channel contract.
    pub address: Address,
    /// The payer, whose signature every request must carry.
    pub sender: Address,
    /// The payee.
    pub recipient: Address,
    /// The balance that the client still has in the channel.
    pub balance: U256,
    /// The request counter; it grows with every accepted request.
    pub nonce: U256,
    /// When the channel expires, in the contract's unit.
    pub expiration: U256,
    /// The identifier that the contract gave the channel.
    pub channel_id: U256,
}

/// What the channel contract reports about itself.
#[derive(Debug, Clone, Copy, PartialEq, Eq)]
pub struct ContractState {
    /// The balance held in escrow.
    pub balance: U256,
    /// When the channel expires.
    pub expiration: U256,
    /// The identifier of the channel.
    pub channel_id: U256,
    /// The payer.
    pub sender: Address,
    /// The payee.
    pub recipient: Address,
}

/// A 65-byte ECDSA signature: `r` (32 bytes), `s` (32 bytes), `v` (1 byte).
#[derive(Debug, Clone, Copy, PartialEq, Eq)]
pub struct Signature {
    /// The signature, byte by byte.
    pub bytes: [u8; 65],
}

impl View for Signature {
    type V = Seq<u8>;

    /// The 65 bytes of the signature.
    open spec fn view(&self) -> Seq<u8> {
        self.bytes@
    }
}

impl Signature {
    /// The signature with the given bytes.
    pub fn new(bytes: [u8; 65]) -> (signature: Signature)
        ensures
            signature@ == bytes@,
    {
        Signature { bytes }
    }

    /// The signature made of `bytes`, which must be exactly 65 bytes long.
    pub fn from_slice(bytes: &[u8]) -> (signature: Option<Signature>)
        ensures
            signature is Some <==> bytes@.len() == 65,
            signature matches Some(s) ==> s@ == bytes@,
    {
        if bytes.len() != 65 {
            return None;
        }
        let mut out = [0u8; 65];
        let mut i: usize = 0;
        while i < 65
            invariant
                0 <= i <= 65,
                bytes@.len() == 65,
                forall|j: int| 0 <= j < i ==> out@[j] == bytes@[j],
            decreases 65 - i,
        {
            out[i] = bytes[i];
            i += 1;
        }
        assert(out@ =~= bytes@);
        Some(Signature { bytes: out })
    }
}

/// One request, decoded: what the client signed, its signature, the channel
/// state it declares, the price of the call and the body it sent.
#[derive(Debug, Clone)]
pub struct SignedRequest {
    /// The digest that the client signed.
    pub message: Vec<u8>,
    /// The client's signature over `message`.
    pub signature: Signature,
    /// The channel state that the client declares.
    pub payment_channel: PaymentChannel,
    /// What this call costs.
    pub payment_amount: U256,
    /// The request body.
    pub body_bytes: Vec<u8>,
}

} // verus!
