//! The channel store: the record of every channel that the server has
//! accepted a request for, and the rate counter of every sender.

use dashmap::DashMap;
use vstd::prelude::*;

use crate::error::AuthError;
use crate::rate_limit::{admits, after_charge, charge, RateWindow};
use crate::types::{Address, ContractState, PaymentChannel, Signature, U256};

verus! {

/// `dashmap::DashMap`, a hash map that is split into shards. Nothing is known
/// of what is inside one but through the items below.
#[verifier::external_type_specification]
#[verifier::external_body]
#[verifier::reject_recursive_types(K)]
#[verifier::reject_recursive_types(V)]
#[verifier::reject_recursive_types(S)]
pub struct ExDashMap<K, V, S>(DashMap<K, V, S>);

/// The records that a map of channels holds, by the two halves of the
/// channel identifier.
pub uninterp spec fn channel_entries(map: DashMap<(u128, u128), PaymentChannel>) -> Map<
    (u128, u128),
    PaymentChannel,
>;

/// The counters that a map of senders holds, by the bytes of the sender's
/// address.
pub uninterp spec fn window_entries(map: DashMap<[u8; 20], RateWindow>) -> Map<
    [u8; 20],
    RateWindow,
>;

/// Calls `DashMap::new`, which makes a map without entries.
#[verifier::external_body]
fn new_channel_map() -> (created: DashMap<(u128, u128), PaymentChannel>)
    ensures
        channel_entries(created).is_empty(),
{
    DashMap::new()
}

/// Calls `DashMap::get`, which finds the entry whose key equals `key`, and
/// copies its value out; the map stays as it is.
#[verifier::external_body]
fn get_channel_entry(map: &DashMap<(u128, u128), PaymentChannel>, key: (u128, u128)) -> (found:
    Option<PaymentChannel>)
    ensures
        found is Some <==> channel_entries(*map).contains_key(key),
        found matches Some(channel) ==> channel == channel_entries(*map)[key],
{
    map.get(&key).map(|entry| *entry.value())
}

/// Calls `DashMap::insert`, which puts `value` under `key`, in place of the
/// value that was there if there was one, and leaves every other entry alone.
#[verifier::external_body]
fn insert_channel_entry(
    map: &mut DashMap<(u128, u128), PaymentChannel>,
    key: (u128, u128),
    value: PaymentChannel,
)
    ensures
        channel_entries(*final(map)) == channel_entries(*old(map)).insert(key, value),
{
    map.insert(key, value);
}

/// Calls `DashMap::new`, which makes a map without entries.
#[verifier::external_body]
fn new_window_map() -> (created: DashMap<[u8; 20], RateWindow>)
    ensures
        window_entries(created).is_empty(),
{
    DashMap::new()
}

/// Calls `DashMap::get`, which finds the entry whose key equals `key`, and
/// copies its value out; the map stays as it is.
#[verifier::external_body]
fn get_window_entry(map: &DashMap<[u8; 20], RateWindow>, key: [u8; 20]) -> (found: Option<
    RateWindow,
>)
    ensures
        found is Some <==> window_entries(*map).contains_key(key),
        found matches Some(window) ==> window == window_entries(*map)[key],
{
    map.get(&key).map(|entry| *entry.value())
}

/// Calls `DashMap::insert`, which puts `value` under `key`, in place of the
/// value that was there if there was one, and leaves every other entry alone.
#[verifier::external_body]
fn insert_window_entry(map: &mut DashMap<[u8; 20], RateWindow>, key: [u8; 20], value: RateWindow)
    ensures
        window_entries(*final(map)) == window_entries(*old(map)).insert(key, value),
{
    map.insert(key, value);
}

/// The address that made `signature` over the 32-byte `digest`, where the
/// signature yields one.
pub uninterp spec fn recovered_signer(digest: Seq<u8>, signature: Seq<u8>) -> Option<Seq<u8>>;

/// Calls `ethers::types::Signature::recover` on the signature that
/// `Signature::try_from` reads from the 65 bytes, with `digest` as the hash
/// that was signed (it is not hashed or prefixed again). The recovery is
/// secp256k1 arithmetic on the two values alone; `recovered_signer` names its
/// result. `H256::from_slice` takes exactly 32 bytes.
#[verifier::external_body]
fn recover_signer(digest: &[u8], signature: &[u8; 65]) -> (signer: Option<[u8; 20]>)
    requires
        digest@.len() == 32,
    ensures
        signer is Some <==> recovered_signer(digest@, signature@) is Some,
        signer matches Some(address) ==> recovered_signer(digest@, signature@) == Some(address@),
{
    let parsed = ethers::types::Signature::try_from(signature.as_slice()).ok()?;
    let signer = parsed.recover(ethers::types::H256::from_slice(digest)).ok()?;
    Some(signer.0)
}

/// Who signed `message`: the recovered address where `message` is a 32-byte
/// digest and the signature is sound, nobody otherwise.
pub open spec fn signer_of(message: Seq<u8>, signature: Seq<u8>) -> Option<Seq<u8>> {
    if message.len() == 32 {
        recovered_signer(message, signature)
    } else {
        None
    }
}

/// Whether the recovered signer is the sender that the channel declares.
pub open spec fn signed_by_sender(signer: Option<Seq<u8>>, payment_channel: PaymentChannel) -> bool {
    signer == Some(payment_channel.sender@)
}

/// What the first-use validation against the contract decides: the declared
/// balance must not exceed the escrow, and expiration, identifier, sender and
/// recipient must be the contract's.
pub open spec fn contract_check(payment_channel: PaymentChannel, contract: ContractState) -> Result<
    (),
    AuthError,
> {
    if contract.balance@ < payment_channel.balance@ {
        Err(AuthError::InsufficientBalance)
    } else if payment_channel.expiration@ != contract.expiration@ {
        Err(AuthError::Expired)
    } else if payment_channel.channel_id@ != contract.channel_id@ {
        Err(AuthError::InvalidChannel)
    } else if payment_channel.sender@ != contract.sender@ {
        Err(AuthError::InvalidChannel)
    } else if payment_channel.recipient@ != contract.recipient@ {
        Err(AuthError::InvalidChannel)
    } else {
        Ok(())
    }
}

/// The local state of the server: every channel it has accepted a request
/// for, the rate counter of every sender, and the RPC endpoint of the chain.
pub struct ChannelState {
    channels: DashMap<(u128, u128), PaymentChannel>,
    rate_limiter: DashMap<[u8; 20], RateWindow>,
    network_rpc_url: String,
}

impl ChannelState {
    /// The stored channels, by channel identifier.
    pub closed spec fn channels(&self) -> Map<U256, PaymentChannel> {
        Map::new(
            |id: U256| channel_entries(self.channels).contains_key((id.hi, id.lo)),
            |id: U256| channel_entries(self.channels)[(id.hi, id.lo)],
        )
    }

    /// The rate counters, by sender.
    pub closed spec fn rate_windows(&self) -> Map<Address, RateWindow> {
        Map::new(
            |sender: Address| window_entries(self.rate_limiter).contains_key(sender.bytes),
            |sender: Address| window_entries(self.rate_limiter)[sender.bytes],
        )
    }

    /// The RPC endpoint.
    pub closed spec fn rpc_url(&self) -> Seq<char> {
        self.network_rpc_url@
    }

    /// The stored record of one channel, if there is one.
    pub open spec fn channel(&self, channel_id: U256) -> Option<PaymentChannel> {
        if self.channels().contains_key(channel_id) {
            Some(self.channels()[channel_id])
        } else {
            None
        }
    }

    /// The rate counter of one sender, if there is one.
    pub open spec fn rate_window(&self, sender: Address) -> Option<RateWindow> {
        if self.rate_windows().contains_key(sender) {
            Some(self.rate_windows()[sender])
        } else {
            None
        }
    }

    /// A state without channels or counters, for the chain behind `rpc_url`.
    pub fn new(rpc_url: String) -> (state: ChannelState)
        ensures
            state.channels() == Map::<U256, PaymentChannel>::empty(),
            state.rate_windows() == Map::<Address, RateWindow>::empty(),
            state.rpc_url() == rpc_url@,
    {
        let state = ChannelState {
            channels: new_channel_map(),
            rate_limiter: new_window_map(),
            network_rpc_url: rpc_url,
        };
        assert(state.channels() =~= Map::<U256, PaymentChannel>::empty());
        assert(state.rate_windows() =~= Map::<Address, RateWindow>::empty());
        state
    }

    /// The RPC endpoint that this state was made for.
    pub fn network_rpc_url(&self) -> (url: &str)
        ensures
            url@ == self.rpc_url(),
    {
        self.network_rpc_url.as_str()
    }

    /// A copy of the stored record of a channel.
    pub fn get_channel(&self, channel_id: U256) -> (found: Option<PaymentChannel>)
        ensures
            found == self.channel(channel_id),
    {
        get_channel_entry(&self.channels, (channel_id.hi, channel_id.lo))
    }

    /// A copy of the rate counter of a sender.
    pub fn get_rate_window(&self, sender: Address) -> (found: Option<RateWindow>)
        ensures
            found == self.rate_window(sender),
    {
        get_window_entry(&self.rate_limiter, sender.bytes)
    }

    /// Stores `channel` under `channel_id`, whatever was there.
    pub fn update_channel(&mut self, channel_id: U256, channel: PaymentChannel)
        ensures
            final(self).channels() == old(self).channels().insert(channel_id, channel),
            final(self).rate_windows() == old(self).rate_windows(),
            final(self).rpc_url() == old(self).rpc_url(),
    {
        insert_channel_entry(&mut self.channels, (channel_id.hi, channel_id.lo), channel);
        assert(self.channels() =~= old(self).channels().insert(channel_id, channel));
    }

    /// Stores `new_value` under `channel_id` in place of the record that is
    /// there, if `predicate` holds of that record. A channel that the store
    /// does not have is not stored. Returns whether the record was replaced.
    pub fn update_if<F: Fn(&PaymentChannel) -> bool>(
        &mut self,
        channel_id: U256,
        predicate: F,
        new_value: PaymentChannel,
    ) -> (replaced: bool)
        requires
            old(self).channel(channel_id) matches Some(record) ==> call_requires(
                predicate,
                (&record,),
            ),
        ensures
            replaced ==> (old(self).channel(channel_id) matches Some(record) && call_ensures(
                predicate,
                (&record,),
                true,
            )),
            !replaced ==> (old(self).channel(channel_id) matches Some(record) ==> call_ensures(
                predicate,
                (&record,),
                false,
            )),
            final(self).channels() == if replaced {
                old(self).channels().insert(channel_id, new_value)
            } else {
                old(self).channels()
            },
            final(self).rate_windows() == old(self).rate_windows(),
            final(self).rpc_url() == old(self).rpc_url(),
    {
        match self.get_channel(channel_id) {
            Some(record) => {
                if predicate(&record) {
                    self.update_channel(channel_id, new_value);
                    true
                } else {
                    false
                }
            },
            None => false,
        }
    }

    /// Whether `signer`, as recovered from a signature, is the sender that
    /// the channel declares.
    pub fn check_signer(payment_channel: &PaymentChannel, signer: Option<Address>) -> (result:
        Result<(), AuthError>)
        ensures
            result is Ok <==> (signer matches Some(address) && address@
                == payment_channel.sender@),
            result matches Err(error) ==> error == AuthError::InvalidSignature,
    {
        match signer {
            Some(address) => {
                if address == payment_channel.sender {
                    Ok(())
                } else {
                    Err(AuthError::InvalidSignature)
                }
            },
            None => Err(AuthError::InvalidSignature),
        }
    }

    /// The address that signed `message`, if the signature yields one.
    pub fn recover(signature: &Signature, message: &[u8]) -> (signer: Option<Address>)
        ensures
            signer is Some <==> signer_of(message@, signature@) is Some,
            signer matches Some(address) ==> signer_of(message@, signature@) == Some(address@),
    {
        if message.len() != 32 {
            return None;
        }
        match recover_signer(message, &signature.bytes) {
            Some(bytes) => Some(Address::new(bytes)),
            None => None,
        }
    }

    /// Accepts the signature exactly where it was made over `message` by the
    /// sender that the channel declares.
    pub fn verify_signature(
        &self,
        payment_channel: &PaymentChannel,
        signature: &Signature,
        message: &[u8],
    ) -> (result: Result<(), AuthError>)
        ensures
            result is Ok <==> signed_by_sender(signer_of(message@, signature@), *payment_channel),
            result matches Err(error) ==> error == AuthError::InvalidSignature,
    {
        let signer = Self::recover(signature, message);
        Self::check_signer(payment_channel, signer)
    }

    /// Holds a channel that is seen for the first time against what its
    /// contract reports.
    pub fn validate_channel(&self, payment_channel: &PaymentChannel, contract: &ContractState) -> (result:
        Result<(), AuthError>)
        ensures
            result == contract_check(*payment_channel, *contract),
    {
        if contract.balance.lt(&payment_channel.balance) {
            return Err(AuthError::InsufficientBalance);
        }
        if !payment_channel.expiration.same(&contract.expiration) {
            return Err(AuthError::Expired);
        }
        if !payment_channel.channel_id.same(&contract.channel_id) {
            return Err(AuthError::InvalidChannel);
        }
        if payment_channel.sender != contract.sender {
            return Err(AuthError::InvalidChannel);
        }
        if payment_channel.recipient != contract.recipient {
            return Err(AuthError::InvalidChannel);
        }
        Ok(())
    }

    /// Charges one request at `now` (seconds since the Unix epoch) to the
    /// sender's rate counter, and refuses it where the window is used up.
    pub fn check_rate_limit(&mut self, sender: Address, now: u64) -> (result: Result<(), AuthError>)
        ensures
            result is Ok <==> admits(old(self).rate_window(sender), now),
            result matches Err(error) ==> error == AuthError::RateLimitExceeded,
            final(self).rate_windows() == old(self).rate_windows().insert(
                sender,
                after_charge(old(self).rate_window(sender), now),
            ),
            final(self).channels() == old(self).channels(),
            final(self).rpc_url() == old(self).rpc_url(),
    {
        let slot = get_window_entry(&self.rate_limiter, sender.bytes);
        let (window, admitted) = charge(slot, now);
        insert_window_entry(&mut self.rate_limiter, sender.bytes, window);
        proof {
            assert forall|other: Address| other.bytes == sender.bytes implies other == sender by {}
            assert(self.rate_windows() =~= old(self).rate_windows().insert(sender, window));
        }
        if admitted {
            Ok(())
        } else {
            Err(AuthError::RateLimitExceeded)
        }
    }
}

} // verus!
