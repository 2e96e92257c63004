//! The verification pipeline of one request: signature, rate limit, channel
//! lookup, the checks against the stored record or the contract, the debit,
//! and the commit to the store.

use vstd::prelude::*;

use crate::channel::{contract_check, signed_by_sender, signer_of, ChannelState};
use crate::error::{AuthError, StatusCode};
use crate::headers::{headers_rejection, parse_headers, parsed_signature, RequestHeaders};
use crate::hex::hex_decoded;
use crate::rate_limit::{admits, after_charge, RateWindow};
use crate::types::uint::{lemma_view_bound, lemma_view_injective, lemma_view_of_from_nat};
use crate::types::{ContractState, PaymentChannel, SignedRequest, U256};
use crate::utils::{create_message, message_digest};

verus! {

/// What the pipeline decides about a request.
#[derive(Debug, Clone, PartialEq, Eq)]
pub enum Verdict {
    /// The request is accepted; the store now holds this record, which the
    /// client builds its next request on.
    Authorized(PaymentChannel),
    /// The request is refused.
    Rejected(AuthError),
    /// The channel is not in the store: its contract has to be read before
    /// the request can be decided.
    ContractRequired,
}

/// What came of reading the channel contract.
#[derive(Debug, Clone, PartialEq, Eq)]
pub enum ContractReading {
    /// What the contract reports.
    State(ContractState),
    /// The contract could not be read.
    Failed(AuthError),
}

/// What a request that was not refused leads to.
#[derive(Debug, Clone)]
pub enum Admission {
    /// The request is accepted; the store now holds this record.
    Authorized(PaymentChannel),
    /// The channel is not in the store: its contract has to be read, and the
    /// request decided with what it reports.
    ContractRequired(SignedRequest),
}

/// The checks against the stored record of a channel: the nonce must have
/// grown, and the declared balance must be the stored one.
pub open spec fn existing_check(record: PaymentChannel, declared: PaymentChannel) -> Result<
    (),
    AuthError,
> {
    if declared.nonce@ <= record.nonce@ {
        Err(AuthError::InvalidChannel)
    } else if declared.balance@ != record.balance@ {
        Err(AuthError::InvalidChannel)
    } else {
        Ok(())
    }
}

/// The checks on a channel that is not in the store: the contract must have
/// been read, must agree with what is declared, and the nonce must be zero.
pub open spec fn first_use_check(declared: PaymentChannel, reading: ContractReading) -> Result<
    (),
    AuthError,
> {
    match reading {
        ContractReading::Failed(error) => Err(error),
        ContractReading::State(contract) => match contract_check(declared, contract) {
            Err(error) => Err(error),
            Ok(_) => if declared.nonce@ != 0 {
                Err(AuthError::InvalidChannel)
            } else {
                Ok(())
            },
        },
    }
}

/// The declared state with the price of the call taken off its balance, or
/// a refusal where the balance does not cover the price.
pub open spec fn debited(declared: PaymentChannel, amount: U256) -> Result<
    PaymentChannel,
    AuthError,
> {
    if declared.balance@ < amount@ {
        Err(AuthError::InsufficientBalance)
    } else {
        Ok(
            (PaymentChannel {
                balance: U256::from_nat((declared.balance@ - amount@) as nat),
                ..declared
            }),
        )
    }
}

/// What a request comes to once its channel has passed `check`: the debit.
pub open spec fn settlement(check: Result<(), AuthError>, declared: PaymentChannel, amount: U256) -> Result<
    PaymentChannel,
    AuthError,
> {
    match check {
        Err(error) => Err(error),
        Ok(_) => debited(declared, amount),
    }
}

/// The verdict on a request whose signature has been verified, given the
/// sender's rate counter and the stored record of the channel.
pub open spec fn payment_verdict(
    window: Option<RateWindow>,
    record: Option<PaymentChannel>,
    declared: PaymentChannel,
    amount: U256,
    now: u64,
) -> Verdict {
    if !admits(window, now) {
        Verdict::Rejected(AuthError::RateLimitExceeded)
    } else {
        match record {
            None => Verdict::ContractRequired,
            Some(record) => match settlement(existing_check(record, declared), declared, amount) {
                Err(error) => Verdict::Rejected(error),
                Ok(updated) => Verdict::Authorized(updated),
            },
        }
    }
}

/// The verdict on a request, given who signed it.
pub open spec fn request_verdict(
    signer: Option<Seq<u8>>,
    window: Option<RateWindow>,
    record: Option<PaymentChannel>,
    declared: PaymentChannel,
    amount: U256,
    now: u64,
) -> Verdict {
    if !signed_by_sender(signer, declared) {
        Verdict::Rejected(AuthError::InvalidSignature)
    } else {
        payment_verdict(window, record, declared, amount, now)
    }
}

/// What a request whose signature has been verified comes to once its
/// contract has been read: held against the stored record if the channel
/// has one by now, against the contract otherwise.
pub open spec fn first_payment_result(
    record: Option<PaymentChannel>,
    declared: PaymentChannel,
    amount: U256,
    reading: ContractReading,
) -> Result<PaymentChannel, AuthError> {
    match record {
        Some(record) => settlement(existing_check(record, declared), declared, amount),
        None => settlement(first_use_check(declared, reading), declared, amount),
    }
}

/// What a request comes to once its contract has been read, given who
/// signed it.
pub open spec fn first_request_result(
    signer: Option<Seq<u8>>,
    record: Option<PaymentChannel>,
    declared: PaymentChannel,
    amount: U256,
    reading: ContractReading,
) -> Result<PaymentChannel, AuthError> {
    if !signed_by_sender(signer, declared) {
        Err(AuthError::InvalidSignature)
    } else {
        first_payment_result(record, declared, amount, reading)
    }
}

/// What the store holds once a request is decided: the new record of the
/// channel where the request is accepted, and what it held before otherwise.
pub open spec fn committed(
    channels: Map<U256, PaymentChannel>,
    channel_id: U256,
    verdict: Verdict,
) -> Map<U256, PaymentChannel> {
    match verdict {
        Verdict::Authorized(updated) => channels.insert(channel_id, updated),
        _ => channels,
    }
}

/// The store after a request on a channel that was seen for the first time.
pub open spec fn opened(
    channels: Map<U256, PaymentChannel>,
    channel_id: U256,
    result: Result<PaymentChannel, AuthError>,
) -> Map<U256, PaymentChannel> {
    match result {
        Ok(updated) => channels.insert(channel_id, updated),
        Err(_) => channels,
    }
}

/// Holds a declared state against the stored record of its channel.
pub fn check_existing(record: &PaymentChannel, declared: &PaymentChannel) -> (result: Result<
    (),
    AuthError,
>)
    ensures
        result == existing_check(*record, *declared),
{
    if declared.nonce.le(&record.nonce) {
        return Err(AuthError::InvalidChannel);
    }
    if !declared.balance.same(&record.balance) {
        return Err(AuthError::InvalidChannel);
    }
    Ok(())
}

/// Holds a declared state against what was read from its contract.
pub fn check_first_use(state: &ChannelState, declared: &PaymentChannel, reading: ContractReading) -> (result:
    Result<(), AuthError>)
    ensures
        result == first_use_check(*declared, reading),
{
    let contract = match reading {
        ContractReading::State(contract) => contract,
        ContractReading::Failed(error) => {
            return Err(error);
        },
    };
    match state.validate_channel(declared, &contract) {
        Ok(_) => {},
        Err(error) => {
            return Err(error);
        },
    }
    if !declared.nonce.is_zero() {
        return Err(AuthError::InvalidChannel);
    }
    Ok(())
}

/// Takes the price of the call off the declared balance.
pub fn debit(declared: &PaymentChannel, amount: &U256) -> (result: Result<PaymentChannel, AuthError>)
    ensures
        result == debited(*declared, *amount),
{
    match declared.balance.checked_sub(amount) {
        Some(balance) => Ok(
            PaymentChannel {
                address: declared.address,
                sender: declared.sender,
                recipient: declared.recipient,
                balance,
                nonce: declared.nonce,
                expiration: declared.expiration,
                channel_id: declared.channel_id,
            },
        ),
        None => Err(AuthError::InsufficientBalance),
    }
}

/// Decides a request whose signature has been verified: charges the
/// sender's rate counter, looks the channel up, and where the store has it,
/// checks the declared state against the record, debits it and stores it.
pub fn authorize_payment(
    state: &mut ChannelState,
    declared: &PaymentChannel,
    amount: &U256,
    now: u64,
) -> (verdict: Verdict)
    ensures
        verdict == payment_verdict(
            old(state).rate_window(declared.sender),
            old(state).channel(declared.channel_id),
            *declared,
            *amount,
            now,
        ),
        final(state).channels() == committed(
            old(state).channels(),
            declared.channel_id,
            verdict,
        ),
        final(state).rate_windows() == old(state).rate_windows().insert(
            declared.sender,
            after_charge(old(state).rate_window(declared.sender), now),
        ),
        final(state).rpc_url() == old(state).rpc_url(),
{
    match state.check_rate_limit(declared.sender, now) {
        Ok(_) => {},
        Err(_) => {
            return Verdict::Rejected(AuthError::RateLimitExceeded);
        },
    }
    let record = match state.get_channel(declared.channel_id) {
        Some(record) => record,
        None => {
            return Verdict::ContractRequired;
        },
    };
    match check_existing(&record, declared) {
        Ok(_) => {},
        Err(error) => {
            return Verdict::Rejected(error);
        },
    }
    match debit(declared, amount) {
        Ok(updated) => {
            state.update_channel(declared.channel_id, updated);
            Verdict::Authorized(updated)
        },
        Err(error) => Verdict::Rejected(error),
    }
}

/// Decides a request whose signature has been verified and whose contract
/// has been read: if the store has the channel by now, the declared state
/// is held against the record, otherwise against the contract; then it is
/// debited and stored.
pub fn authorize_first_payment(
    state: &mut ChannelState,
    declared: &PaymentChannel,
    amount: &U256,
    reading: ContractReading,
) -> (result: Result<PaymentChannel, AuthError>)
    ensures
        result == first_payment_result(
            old(state).channel(declared.channel_id),
            *declared,
            *amount,
            reading,
        ),
        final(state).channels() == opened(old(state).channels(), declared.channel_id, result),
        final(state).rate_windows() == old(state).rate_windows(),
        final(state).rpc_url() == old(state).rpc_url(),
{
    let check = match state.get_channel(declared.channel_id) {
        Some(record) => check_existing(&record, declared),
        None => check_first_use(state, declared, reading),
    };
    match check {
        Ok(_) => {},
        Err(error) => {
            return Err(error);
        },
    }
    match debit(declared, amount) {
        Ok(updated) => {
            state.update_channel(declared.channel_id, updated);
            Ok(updated)
        },
        Err(error) => Err(error),
    }
}

/// Decides a request at `now` (seconds since the Unix epoch): verifies its
/// signature, then goes on as [`authorize_payment`] does.
pub fn verify_and_update_channel(state: &mut ChannelState, request: &SignedRequest, now: u64) -> (verdict:
    Verdict)
    ensures
        verdict == request_verdict(
            signer_of(request.message@, request.signature@),
            old(state).rate_window(request.payment_channel.sender),
            old(state).channel(request.payment_channel.channel_id),
            request.payment_channel,
            request.payment_amount,
            now,
        ),
        final(state).channels() == committed(
            old(state).channels(),
            request.payment_channel.channel_id,
            verdict,
        ),
        final(state).rate_windows() == if signed_by_sender(
            signer_of(request.message@, request.signature@),
            request.payment_channel,
        ) {
            old(state).rate_windows().insert(
                request.payment_channel.sender,
                after_charge(old(state).rate_window(request.payment_channel.sender), now),
            )
        } else {
            old(state).rate_windows()
        },
        final(state).rpc_url() == old(state).rpc_url(),
{
    match state.verify_signature(
        &request.payment_channel,
        &request.signature,
        request.message.as_slice(),
    ) {
        Ok(_) => {},
        Err(_) => {
            return Verdict::Rejected(AuthError::InvalidSignature);
        },
    }
    authorize_payment(state, &request.payment_channel, &request.payment_amount, now)
}

/// Decides a request on a channel whose contract has been read: verifies
/// its signature, then goes on as [`authorize_first_payment`] does.
pub fn verify_and_open_channel(
    state: &mut ChannelState,
    request: &SignedRequest,
    reading: ContractReading,
) -> (result: Result<PaymentChannel, AuthError>)
    ensures
        result == first_request_result(
            signer_of(request.message@, request.signature@),
            old(state).channel(request.payment_channel.channel_id),
            request.payment_channel,
            request.payment_amount,
            reading,
        ),
        final(state).channels() == opened(
            old(state).channels(),
            request.payment_channel.channel_id,
            result,
        ),
        final(state).rate_windows() == old(state).rate_windows(),
        final(state).rpc_url() == old(state).rpc_url(),
{
    match state.verify_signature(
        &request.payment_channel,
        &request.signature,
        request.message.as_slice(),
    ) {
        Ok(_) => {},
        Err(_) => {
            return Err(AuthError::InvalidSignature);
        },
    }
    authorize_first_payment(state, &request.payment_channel, &request.payment_amount, reading)
}

/// Whether two rows of bytes are the same.
pub fn bytes_equal(left: &[u8], right: &[u8]) -> (equal: bool)
    ensures
        equal == (left@ == right@),
{
    if left.len() != right.len() {
        return false;
    }
    let mut i: usize = 0;
    while i < left.len()
        invariant
            0 <= i <= left@.len(),
            left@.len() == right@.len(),
            forall|j: int| 0 <= j < i ==> left@[j] == right@[j],
        decreases left@.len() - i,
    {
        if left[i] != right[i] {
            return false;
        }
        i += 1;
    }
    assert(left@ =~= right@);
    true
}

/// Whether `message` is the digest of the declared state and the body.
pub open spec fn digest_matches(message: Seq<u8>, declared: PaymentChannel, body: Seq<u8>) -> bool {
    message == message_digest(declared.channel_id@, declared.balance@, declared.nonce@, body)
}

/// Refuses a message that is not the digest of the declared state and the
/// body.
pub fn check_message(message: &[u8], declared: &PaymentChannel, body: &[u8]) -> (result: Result<
    (),
    AuthError,
>)
    ensures
        result is Ok <==> digest_matches(message@, *declared, body@),
        result matches Err(error) ==> error == AuthError::InvalidMessage,
{
    let expected = create_message(declared.channel_id, declared.balance, declared.nonce, body);
    if bytes_equal(message, expected.as_slice()) {
        Ok(())
    } else {
        Err(AuthError::InvalidMessage)
    }
}

/// The digest that the headers of a request carry, where they are in order.
pub open spec fn request_message(headers: RequestHeaders) -> Seq<u8> {
    hex_decoded(headers.message.unwrap()@).unwrap()
}

/// The signature that the headers of a request carry, where they are in
/// order.
pub open spec fn request_signature(headers: RequestHeaders) -> Seq<u8> {
    parsed_signature(headers.signature.unwrap()@).unwrap()
}

/// The channel state that the headers of a request declare, where they are
/// in order.
pub open spec fn request_channel(headers: RequestHeaders) -> PaymentChannel {
    headers.payment->0
}

/// What the whole pipeline decides about a request: the status that it is
/// refused with before its signature is looked at, on its headers or
/// because the digest is not that of the declared state and the body; or
/// else the verdict.
pub open spec fn middleware_verdict(
    headers: RequestHeaders,
    body: Seq<u8>,
    amount: U256,
    now: u64,
    window: Option<RateWindow>,
    record: Option<PaymentChannel>,
) -> Result<Verdict, StatusCode> {
    match headers_rejection(headers, now) {
        Some(status) => Err(status),
        None => if !digest_matches(request_message(headers), request_channel(headers), body) {
            Err(AuthError::InvalidMessage.status())
        } else {
            Ok(
                request_verdict(
                    signer_of(request_message(headers), request_signature(headers)),
                    window,
                    record,
                    request_channel(headers),
                    amount,
                    now,
                ),
            )
        },
    }
}

/// Whether the pipeline got as far as charging the sender's rate counter:
/// the headers are in order, the digest matches, and the sender signed it.
pub open spec fn reaches_rate_limit(headers: RequestHeaders, body: Seq<u8>, now: u64) -> bool {
    &&& headers_rejection(headers, now) is None
    &&& digest_matches(request_message(headers), request_channel(headers), body)
    &&& signed_by_sender(
        signer_of(request_message(headers), request_signature(headers)),
        request_channel(headers),
    )
}

/// Whether `request` is what the headers and the body of a request hold,
/// for a call that costs `amount`.
pub open spec fn carries(
    request: SignedRequest,
    headers: RequestHeaders,
    body: Seq<u8>,
    amount: U256,
) -> bool {
    &&& request.message@ == request_message(headers)
    &&& request.signature@ == request_signature(headers)
    &&& request.payment_channel == request_channel(headers)
    &&& request.payment_amount == amount
    &&& request.body_bytes@ == body
}

/// Reads the headers of a request and binds them to its body: the request
/// that the pipeline works on, or the status that it is refused with.
pub fn read_request(headers: &RequestHeaders, body: &[u8], payment_amount: U256, now: u64) -> (result:
    Result<SignedRequest, StatusCode>)
    ensures
        result is Ok <==> headers_rejection(*headers, now) is None && digest_matches(
            request_message(*headers),
            request_channel(*headers),
            body@,
        ),
        result matches Err(status) ==> status == match headers_rejection(*headers, now) {
            Some(refusal) => refusal,
            None => AuthError::InvalidMessage.status(),
        },
        result matches Ok(request) ==> carries(request, *headers, body@, payment_amount),
{
    let parsed = match parse_headers(headers, now) {
        Ok(parsed) => parsed,
        Err(status) => {
            return Err(status);
        },
    };
    match check_message(parsed.message.as_slice(), &parsed.payment_channel, body) {
        Ok(_) => {},
        Err(error) => {
            return Err(error.status_code());
        },
    }
    Ok(
        SignedRequest {
            message: parsed.message,
            signature: parsed.signature,
            payment_channel: parsed.payment_channel,
            payment_amount,
            body_bytes: vstd::slice::slice_to_vec(body),
        },
    )
}

/// The store after the whole pipeline has decided a request.
pub open spec fn admitted_channels(
    channels: Map<U256, PaymentChannel>,
    channel_id: U256,
    decided: Result<Verdict, StatusCode>,
) -> Map<U256, PaymentChannel> {
    match decided {
        Ok(verdict) => committed(channels, channel_id, verdict),
        Err(_) => channels,
    }
}

/// Decides the request with the given headers and body that arrives at
/// `now` (seconds since the Unix epoch), for a call that costs
/// `payment_amount`. A request that is refused comes back as the status to
/// answer it with.
pub fn auth_middleware(
    state: &mut ChannelState,
    payment_amount: U256,
    headers: &RequestHeaders,
    body: &[u8],
    now: u64,
) -> (result: Result<Admission, StatusCode>)
    ensures
        match middleware_verdict(
            *headers,
            body@,
            payment_amount,
            now,
            old(state).rate_window(request_channel(*headers).sender),
            old(state).channel(request_channel(*headers).channel_id),
        ) {
            Err(status) => result matches Err(refusal) && refusal == status,
            Ok(Verdict::Rejected(error)) => result matches Err(refusal) && refusal
                == error.status(),
            Ok(Verdict::Authorized(updated)) => result matches Ok(Admission::Authorized(channel))
                && channel == updated,
            Ok(Verdict::ContractRequired) => result matches Ok(
                Admission::ContractRequired(request),
            ) && carries(request, *headers, body@, payment_amount),
        },
        final(state).channels() == admitted_channels(
            old(state).channels(),
            request_channel(*headers).channel_id,
            middleware_verdict(
                *headers,
                body@,
                payment_amount,
                now,
                old(state).rate_window(request_channel(*headers).sender),
                old(state).channel(request_channel(*headers).channel_id),
            ),
        ),
        final(state).rate_windows() == if reaches_rate_limit(*headers, body@, now) {
            old(state).rate_windows().insert(
                request_channel(*headers).sender,
                after_charge(old(state).rate_window(request_channel(*headers).sender), now),
            )
        } else {
            old(state).rate_windows()
        },
        final(state).rpc_url() == old(state).rpc_url(),
{
    let request = match read_request(headers, body, payment_amount, now) {
        Ok(request) => request,
        Err(status) => {
            return Err(status);
        },
    };
    match verify_and_update_channel(state, &request, now) {
        Verdict::Authorized(updated) => Ok(Admission::Authorized(updated)),
        Verdict::Rejected(error) => Err(StatusCode::from(error)),
        Verdict::ContractRequired => Ok(Admission::ContractRequired(request)),
    }
}

/// Whether a request is refused, at whatever step.
pub open spec fn refuses(decided: Result<Verdict, StatusCode>) -> bool {
    match decided {
        Err(_) => true,
        Ok(Verdict::Rejected(_)) => true,
        Ok(_) => false,
    }
}

/// A request that is accepted on a channel that the store has moves the
/// record on: the nonce grows, the balance falls by exactly the price of
/// the call, and everything else is as the request declares it.
pub proof fn lemma_accepted_request_advances(
    record: PaymentChannel,
    declared: PaymentChannel,
    amount: U256,
)
    requires
        settlement(existing_check(record, declared), declared, amount) is Ok,
    ensures
        ({
            let updated = settlement(existing_check(record, declared), declared, amount).unwrap();
            &&& updated.nonce@ > record.nonce@
            &&& updated.balance@ + amount@ == record.balance@
            &&& updated == PaymentChannel { balance: updated.balance, ..declared }
        }),
{
    lemma_view_bound(declared.balance);
    lemma_view_of_from_nat((declared.balance@ - amount@) as nat);
}

/// A request that is accepted on a channel that is seen for the first time
/// starts the record at nonce zero, with a balance that the escrow covers,
/// less the price of the call.
pub proof fn lemma_first_request_opens(
    declared: PaymentChannel,
    amount: U256,
    contract: ContractState,
)
    requires
        first_payment_result(None, declared, amount, ContractReading::State(contract)) is Ok,
    ensures
        ({
            let updated = first_payment_result(
                None,
                declared,
                amount,
                ContractReading::State(contract),
            ).unwrap();
            &&& updated.nonce@ == 0
            &&& updated.balance@ + amount@ == declared.balance@
            &&& declared.balance@ <= contract.balance@
            &&& declared.expiration == contract.expiration
            &&& declared.channel_id == contract.channel_id
            &&& declared.sender@ == contract.sender@
            &&& declared.recipient@ == contract.recipient@
            &&& updated == PaymentChannel { balance: updated.balance, ..declared }
        }),
{
    lemma_view_bound(declared.balance);
    lemma_view_of_from_nat((declared.balance@ - amount@) as nat);
    lemma_view_injective(declared.expiration, contract.expiration);
    lemma_view_injective(declared.channel_id, contract.channel_id);
}

/// The record of a channel after each of `requests` (the declared state and
/// the price of the call) was accepted in turn, starting from `record`;
/// `None` where one of them is refused.
pub open spec fn accepted_run(record: PaymentChannel, requests: Seq<(PaymentChannel, U256)>) -> Option<
    PaymentChannel,
>
    decreases requests.len(),
{
    if requests.len() == 0 {
        Some(record)
    } else {
        match accepted_run(record, requests.drop_last()) {
            None => None,
            Some(previous) => match settlement(
                existing_check(previous, requests.last().0),
                requests.last().0,
                requests.last().1,
            ) {
                Ok(updated) => Some(updated),
                Err(_) => None,
            },
        }
    }
}

/// Whether the request at place `k` of `requests` finds the record that
/// the requests before it left, raises its nonce, and lowers its balance by
/// exactly the price of the call.
pub open spec fn advances(
    record: PaymentChannel,
    requests: Seq<(PaymentChannel, U256)>,
    k: int,
) -> bool {
    let before = accepted_run(record, requests.take(k));
    let after = accepted_run(record, requests.take(k + 1));
    &&& before is Some
    &&& after is Some
    &&& before.unwrap().nonce@ < after.unwrap().nonce@
    &&& after.unwrap().balance@ + requests[k].1@ == before.unwrap().balance@
}

/// Over any row of requests that are accepted one after the other on a
/// channel, every request raises the nonce and lowers the balance by
/// exactly the price of its call.
pub proof fn lemma_accepted_run_is_monotonic(
    record: PaymentChannel,
    requests: Seq<(PaymentChannel, U256)>,
)
    requires
        accepted_run(record, requests) is Some,
    ensures
        forall|k: int| 0 <= k < requests.len() ==> #[trigger] advances(record, requests, k),
    decreases requests.len(),
{
    if requests.len() > 0 {
        let earlier = requests.drop_last();
        let last = requests.len() - 1;
        lemma_accepted_run_is_monotonic(record, earlier);
        assert forall|k: int| 0 <= k < requests.len() implies #[trigger] advances(
            record,
            requests,
            k,
        ) by {
            if k < last {
                assert(advances(record, earlier, k));
                assert(earlier.take(k) == requests.take(k));
                assert(earlier.take(k + 1) == requests.take(k + 1));
                assert(earlier[k] == requests[k]);
            } else {
                assert(requests.take(k) == earlier);
                assert(requests.take(k + 1) == requests);
                lemma_accepted_request_advances(
                    accepted_run(record, earlier).unwrap(),
                    requests.last().0,
                    requests.last().1,
                );
            }
        }
    }
}

/// A request that is refused leaves the store of channels as it found it.
pub proof fn lemma_refused_request_keeps_store(
    channels: Map<U256, PaymentChannel>,
    channel_id: U256,
    decided: Result<Verdict, StatusCode>,
)
    requires
        refuses(decided),
    ensures
        admitted_channels(channels, channel_id, decided) == channels,
{
}

/// A request whose digest is not that of its declared state and body is
/// refused, whatever else it holds and whatever the store holds.
pub proof fn lemma_wrong_digest_is_refused(
    headers: RequestHeaders,
    body: Seq<u8>,
    amount: U256,
    now: u64,
    window: Option<RateWindow>,
    record: Option<PaymentChannel>,
)
    requires
        !digest_matches(request_message(headers), request_channel(headers), body),
    ensures
        middleware_verdict(headers, body, amount, now, window, record) is Err,
{
}

/// A request that was not signed by the sender it declares is refused,
/// whatever else it holds and whatever the store holds; and so it is when
/// it comes back with a reading of its contract.
pub proof fn lemma_wrong_signer_is_refused(
    headers: RequestHeaders,
    body: Seq<u8>,
    amount: U256,
    now: u64,
    window: Option<RateWindow>,
    record: Option<PaymentChannel>,
    reading: ContractReading,
)
    requires
        !signed_by_sender(
            signer_of(request_message(headers), request_signature(headers)),
            request_channel(headers),
        ),
    ensures
        refuses(middleware_verdict(headers, body, amount, now, window, record)),
        first_request_result(
            signer_of(request_message(headers), request_signature(headers)),
            record,
            request_channel(headers),
            amount,
            reading,
        ) is Err,
{
}

} // verus!
