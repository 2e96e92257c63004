use pipegate::channel::ChannelState;
use pipegate::error::{AuthError, StatusCode};
use pipegate::headers::{
    check_freshness, check_header_text, parse_headers, parse_signature, parse_timestamp,
    PaymentHeader, RequestHeaders,
};
use pipegate::hex::{trim_prefixes, unhexlify};
use pipegate::middleware::{
    bytes_equal, check_existing, check_first_use, check_message, debit, read_request,
    ContractReading,
};
use pipegate::rate_limit::{charge, RateWindow, RATE_LIMIT, WINDOW};
use pipegate::types::{Address, ContractState, PaymentChannel, Signature, U256};
use pipegate::utils::{create_message, create_preimage};

fn unhex(text: &str) -> Vec<u8> {
    ethers::utils::hex::decode(text).unwrap()
}

fn sample(channel_id: u64, balance: u64, nonce: u64) -> PaymentChannel {
    PaymentChannel {
        address: Address::new([0xCC; 20]),
        sender: Address::new([0xAA; 20]),
        recipient: Address::new([0xBB; 20]),
        balance: U256::from_u64(balance),
        nonce: U256::from_u64(nonce),
        expiration: U256::from_u64(9_999_999_999),
        channel_id: U256::from_u64(channel_id),
    }
}

fn contract_of(declared: &PaymentChannel) -> ContractState {
    ContractState {
        balance: declared.balance,
        expiration: declared.expiration,
        channel_id: declared.channel_id,
        sender: declared.sender,
        recipient: declared.recipient,
    }
}

#[test]
fn digest_of_known_inputs() {
    let digest = create_message(U256::from_u64(1), U256::from_u64(1000), U256::from_u64(6), b"hello");
    assert_eq!(digest, unhex("2dd9e33da082a573bf4f443d7b4b4fb109423a7ce62f24b38e4d3a6a2cf2fa62"));
    let digest = create_message(U256::zero(), U256::zero(), U256::zero(), b"");
    assert_eq!(digest, unhex("46700b4d40ac5c35af2c22dda2787a91eb567b06c924a8fb8ae9a05b20c08c21"));
    let digest = create_message(U256::from_u64(7), U256::from_u64(500), U256::zero(), b"{}");
    assert_eq!(digest, unhex("90e416eba3285005de3826ce2612ecbb3904bbe202c11a83ac5a3fe0e0c83ff3"));
    let digest = create_message(
        U256::new(u128::MAX, u128::MAX),
        U256::new(1, 0),
        U256::new(0, u128::MAX),
        &[0x00, 0xff],
    );
    assert_eq!(digest, unhex("e1127dfd54bd8bab044bae7725fada2d051774fedc984658782226bd3ad2ca45"));
}

#[test]
fn digest_is_deterministic() {
    let first = create_message(U256::from_u64(1), U256::from_u64(1000), U256::from_u64(6), b"hello");
    let second = create_message(U256::from_u64(1), U256::from_u64(1000), U256::from_u64(6), b"hello");
    assert_eq!(first, second);
    let other = create_message(U256::from_u64(1), U256::from_u64(1000), U256::from_u64(7), b"hello");
    assert_ne!(first, other);
}

#[test]
fn digest_is_the_hash_of_the_preimage() {
    let mut expected = Vec::new();
    for value in [1u64, 1000, 6] {
        let mut word = [0u8; 32];
        ethers::types::U256::from(value).to_big_endian(&mut word);
        expected.extend_from_slice(&word);
    }
    expected.extend_from_slice(b"hello");
    let preimage = create_preimage(U256::from_u64(1), U256::from_u64(1000), U256::from_u64(6), b"hello");
    assert_eq!(preimage, expected);
    let digest = create_message(U256::from_u64(1), U256::from_u64(1000), U256::from_u64(6), b"hello");
    assert_eq!(digest, ethers::utils::keccak256(&expected).to_vec());
    assert_ne!(digest, preimage);
}

#[test]
fn preimage_layout() {
    let preimage = create_preimage(U256::from_u64(1), U256::new(1, 2), U256::from_u64(0x0102), b"ab");
    assert_eq!(preimage.len(), 98);
    let mut expected = vec![0u8; 98];
    expected[31] = 1;
    expected[32 + 15] = 1;
    expected[32 + 31] = 2;
    expected[64 + 30] = 1;
    expected[64 + 31] = 2;
    expected[96] = b'a';
    expected[97] = b'b';
    assert_eq!(preimage, expected);
}

#[test]
fn uint_big_endian_bytes() {
    let mut expected = [0u8; 32];
    expected[31] = 0xe8;
    expected[30] = 0x03;
    assert_eq!(U256::from_u64(1000).to_be_bytes(), expected);
    assert_eq!(U256::new(u128::MAX, u128::MAX).to_be_bytes(), [0xff; 32]);
    let mut high = [0u8; 32];
    high[0] = 0x80;
    assert_eq!(U256::new(1 << 127, 0).to_be_bytes(), high);
    let mixed = U256::new(0x0102, 0x0304);
    let bytes = mixed.to_be_bytes();
    assert_eq!(&bytes[14..16], &[0x01, 0x02]);
    assert_eq!(&bytes[30..32], &[0x03, 0x04]);
    assert_eq!(ethers::types::U256::from_big_endian(&bytes), (ethers::types::U256::from(0x0102u64) << 128) + 0x0304u64);
}

#[test]
fn uint_order_and_difference() {
    let small = U256::new(0, u128::MAX);
    let large = U256::new(1, 0);
    assert!(small.lt(&large));
    assert!(!large.lt(&small));
    assert!(small.le(&small));
    assert!(!large.le(&small));
    assert!(small.same(&U256::from_u128(u128::MAX)));
    assert!(!small.same(&large));
    assert!(U256::zero().is_zero());
    assert!(!large.is_zero());
    assert_eq!(large.checked_sub(&small), Some(U256::from_u64(1)));
    assert_eq!(small.checked_sub(&large), None);
    assert_eq!(large.checked_sub(&large), Some(U256::zero()));
    assert_eq!(U256::new(2, 5).checked_sub(&U256::new(0, 7)), Some(U256::new(1, u128::MAX - 1)));
    assert_eq!(U256::new(5, 9).checked_sub(&U256::new(2, 4)), Some(U256::new(3, 5)));
    assert_eq!(U256::from_u64(100).checked_sub(&U256::from_u64(100)), Some(U256::zero()));
    assert_eq!(U256::from_u64(99).checked_sub(&U256::from_u64(100)), None);
}

#[test]
fn timestamp_text() {
    assert_eq!(parse_timestamp(b"1700000000"), Some(1_700_000_000));
    assert_eq!(parse_timestamp(b"0"), Some(0));
    assert_eq!(parse_timestamp(b"007"), Some(7));
    assert_eq!(parse_timestamp(b"+42"), Some(42));
    assert_eq!(parse_timestamp(b"18446744073709551615"), Some(u64::MAX));
    assert_eq!(parse_timestamp(b"18446744073709551616"), None);
    assert_eq!(parse_timestamp(b"99999999999999999999999"), None);
    assert_eq!(parse_timestamp(b""), None);
    assert_eq!(parse_timestamp(b"+"), None);
    assert_eq!(parse_timestamp(b"++1"), None);
    assert_eq!(parse_timestamp(b"-1"), None);
    assert_eq!(parse_timestamp(b" 1"), None);
    assert_eq!(parse_timestamp(b"1 "), None);
    assert_eq!(parse_timestamp(b"12a"), None);
    assert_eq!(parse_timestamp(b"1_000"), None);
    for text in ["1700000000", "+42", "", "+", "-1", "12a", "18446744073709551616", "007"] {
        assert_eq!(parse_timestamp(text.as_bytes()), text.parse::<u64>().ok());
    }
}

#[test]
fn freshness_window() {
    assert_eq!(check_freshness(1000, 1000), Ok(()));
    assert_eq!(check_freshness(1000, 700), Ok(()));
    assert_eq!(check_freshness(1000, 699), Err(AuthError::Expired));
    assert_eq!(check_freshness(1000, 5000), Ok(()));
    assert_eq!(check_freshness(0, u64::MAX), Ok(()));
    assert_eq!(check_freshness(u64::MAX, 0), Err(AuthError::Expired));
}

#[test]
fn header_text() {
    assert!(check_header_text(b"0xabc DEF\t~"));
    assert!(check_header_text(b""));
    assert!(!check_header_text(b"abc\n"));
    assert!(!check_header_text(&[0x7f]));
    assert!(!check_header_text(&[0x80, 0x41]));
    assert!(!check_header_text(&[0x1f]));
}

#[test]
fn hex_text() {
    assert_eq!(unhexlify(b"0x48656c6c6f"), Some(b"Hello".to_vec()));
    assert_eq!(unhexlify(b"0x48656C6C6F"), Some(b"Hello".to_vec()));
    assert_eq!(unhexlify(b"zz48656c6c6f"), Some(b"Hello".to_vec()));
    assert_eq!(unhexlify(b"0x0x4865"), Some(vec![0x48, 0x65]));
    assert_eq!(unhexlify(b"0x0X4865"), Some(vec![0x48, 0x65]));
    assert_eq!(unhexlify(b"0x"), Some(vec![]));
    assert_eq!(unhexlify(b"0"), None);
    assert_eq!(unhexlify(b""), None);
    assert_eq!(unhexlify(b"0x486"), None);
    assert_eq!(unhexlify(b"0x48g5"), None);
    assert_eq!(unhexlify(b"0x0x0x48"), None);
    assert_eq!(unhexlify(b"0x00ff10"), Some(vec![0x00, 0xff, 0x10]));
}

#[test]
fn hex_prefixes() {
    assert_eq!(trim_prefixes(b"0x0x12"), b"12");
    assert_eq!(trim_prefixes(b"0x"), b"");
    assert_eq!(trim_prefixes(b"0X12"), b"0X12");
    assert_eq!(trim_prefixes(b"12"), b"12");
    assert_eq!(trim_prefixes(b"0"), b"0");
    assert_eq!(trim_prefixes(b""), b"");
    assert_eq!(trim_prefixes(b"0x0"), b"0");
    for text in ["0x0x12", "0x", "0X12", "12", "x0x0", "0x0x0x"] {
        assert_eq!(trim_prefixes(text.as_bytes()), text.trim_start_matches("0x").as_bytes());
    }
}

#[test]
fn signature_text() {
    let bytes: Vec<u8> = (0..65u8).collect();
    let text = ethers::utils::hex::encode(&bytes);
    let expected = Signature::from_slice(&bytes).unwrap();
    assert_eq!(expected.bytes.to_vec(), bytes);
    assert_eq!(parse_signature(text.as_bytes()), Some(expected));
    assert_eq!(parse_signature(format!("0x{}", text).as_bytes()), Some(expected));
    assert_eq!(parse_signature(format!("0x0x{}", text).as_bytes()), Some(expected));
    assert_eq!(parse_signature(format!("0x0X{}", text).as_bytes()), Some(expected));
    assert_eq!(parse_signature(text.to_uppercase().as_bytes()), Some(expected));
    assert_eq!(parse_signature(&text.as_bytes()[2..]), None);
    assert_eq!(parse_signature(format!("{}00", text).as_bytes()), None);
    assert_eq!(parse_signature(b"0xnothex"), None);
    assert_eq!(parse_signature(b""), None);
    assert_eq!(Signature::from_slice(&bytes[..64]), None);
    assert_eq!(Signature::from_slice(&[0u8; 66]), None);
}

fn good_headers() -> (RequestHeaders, PaymentChannel, Vec<u8>) {
    let declared = sample(1, 1000, 6);
    let message = create_message(declared.channel_id, declared.balance, declared.nonce, b"hello");
    let headers = RequestHeaders {
        timestamp: Some(b"1700000000".to_vec()),
        signature: Some(format!("0x{}", "ab".repeat(65)).into_bytes()),
        message: Some(ethers::utils::hex::encode(&message).into_bytes()),
        payment: PaymentHeader::Channel(declared),
    };
    (headers, declared, message)
}

#[test]
fn headers_in_order() {
    let (headers, declared, message) = good_headers();
    let parsed = parse_headers(&headers, 1_700_000_100).unwrap();
    assert_eq!(parsed.timestamp, 1_700_000_000);
    assert_eq!(parsed.signature, Signature::new([0xab; 65]));
    assert_eq!(parsed.message, message);
    assert_eq!(parsed.payment_channel, declared);
    let request = read_request(&headers, b"hello", U256::from_u64(100), 1_700_000_100).unwrap();
    assert_eq!(request.message, message);
    assert_eq!(request.signature, Signature::new([0xab; 65]));
    assert_eq!(request.payment_channel, declared);
    assert_eq!(request.payment_amount, U256::from_u64(100));
    assert_eq!(request.body_bytes, b"hello".to_vec());
}

fn refusal(headers: &RequestHeaders, now: u64) -> Option<StatusCode> {
    parse_headers(headers, now).err()
}

#[test]
fn headers_refused_in_order() {
    let now = 1_700_000_100;
    let (good, _, _) = good_headers();

    let mut headers = good.clone();
    headers.timestamp = None;
    headers.signature = None;
    assert_eq!(refusal(&headers, now), Some(StatusCode::BadRequest));

    let mut headers = good.clone();
    headers.timestamp = Some(b"soon".to_vec());
    assert_eq!(refusal(&headers, now), Some(StatusCode::BadRequest));

    let mut headers = good.clone();
    headers.signature = None;
    assert_eq!(refusal(&headers, now + 300), Some(StatusCode::RequestTimeout));
    assert_eq!(refusal(&headers, now + 200), Some(StatusCode::Unauthorized));

    let mut headers = good.clone();
    headers.signature = Some(vec![0xff]);
    headers.message = None;
    assert_eq!(refusal(&headers, now), Some(StatusCode::BadRequest));

    let mut headers = good.clone();
    headers.signature = Some(b"0xnothex".to_vec());
    headers.message = None;
    assert_eq!(refusal(&headers, now), Some(StatusCode::Unauthorized));

    let mut headers = good.clone();
    headers.message = Some(vec![0x00]);
    headers.payment = PaymentHeader::Missing;
    assert_eq!(refusal(&headers, now), Some(StatusCode::BadRequest));

    let mut headers = good.clone();
    headers.signature = Some(b"0xnothex".to_vec());
    headers.payment = PaymentHeader::Missing;
    assert_eq!(refusal(&headers, now), Some(StatusCode::Unauthorized));

    let mut headers = good.clone();
    headers.payment = PaymentHeader::Malformed;
    assert_eq!(refusal(&headers, now), Some(StatusCode::BadRequest));

    let mut headers = good.clone();
    headers.signature = Some("ab".repeat(64).into_bytes());
    assert_eq!(refusal(&headers, now), Some(StatusCode::BadRequest));

    let mut headers = good.clone();
    headers.message = Some(b"abc".to_vec());
    assert_eq!(refusal(&headers, now), Some(StatusCode::BadRequest));

    assert_eq!(refusal(&good, now), None);
}

#[test]
fn message_must_be_the_digest() {
    let (headers, declared, message) = good_headers();
    let refused = Err(AuthError::InvalidMessage);
    assert_eq!(check_message(&message, &declared, b"hello"), Ok(()));
    assert_eq!(check_message(&message, &declared, b"hello "), refused);
    assert_eq!(check_message(&message, &sample(1, 1000, 7), b"hello"), refused);
    assert_eq!(check_message(&message, &sample(1, 999, 6), b"hello"), refused);
    assert_eq!(check_message(&message, &sample(2, 1000, 6), b"hello"), refused);
    assert_eq!(check_message(&message[..31], &declared, b"hello"), refused);
    assert_eq!(check_message(b"", &declared, b"hello"), refused);
    let now = 1_700_000_000;
    assert!(read_request(&headers, b"hello", U256::from_u64(100), now).is_ok());
    assert_eq!(
        read_request(&headers, b"other", U256::from_u64(100), now).err(),
        Some(StatusCode::BadRequest)
    );
    let mut prefixed = headers.clone();
    prefixed.message = Some(format!("0x{}", ethers::utils::hex::encode(&message)).into_bytes());
    assert!(read_request(&prefixed, b"hello", U256::from_u64(100), now).is_ok());
    let mut short = headers.clone();
    short.message = Some(ethers::utils::hex::encode(&message[..31]).into_bytes());
    assert_eq!(
        read_request(&short, b"hello", U256::from_u64(100), now).err(),
        Some(StatusCode::BadRequest)
    );
}

#[test]
fn rows_of_bytes() {
    assert!(bytes_equal(b"", b""));
    assert!(bytes_equal(b"abc", b"abc"));
    assert!(!bytes_equal(b"abc", b"abd"));
    assert!(!bytes_equal(b"abc", b"ab"));
    assert!(!bytes_equal(b"", b"a"));
}

#[test]
fn rate_limit_boundary() {
    let start = 1_700_000_000;
    let mut slot = None;
    for i in 0..RATE_LIMIT {
        let (window, admitted) = charge(slot, start + i % 60);
        assert!(admitted);
        assert_eq!(window, RateWindow { count: i + 1, window_start: start });
        slot = Some(window);
    }
    let (window, admitted) = charge(slot, start + 59);
    assert!(!admitted);
    assert_eq!(window, RateWindow { count: 100, window_start: start });
    let (window, admitted) = charge(slot, start - 5);
    assert!(!admitted);
    assert_eq!(window, RateWindow { count: 100, window_start: start });
    let (window, admitted) = charge(slot, start + WINDOW);
    assert!(admitted);
    assert_eq!(window, RateWindow { count: 1, window_start: start + 60 });
    let (window, admitted) = charge(Some(RateWindow { count: 3, window_start: start }), start + 59);
    assert!(admitted);
    assert_eq!(window, RateWindow { count: 4, window_start: start });
    let (window, admitted) = charge(None, 0);
    assert!(admitted);
    assert_eq!(window, RateWindow { count: 1, window_start: 0 });
}

#[test]
fn rate_limit_is_per_sender() {
    let mut state = ChannelState::new("http://localhost:8545".to_string());
    let first = Address::new([1; 20]);
    let second = Address::new([2; 20]);
    for _ in 0..100 {
        assert_eq!(state.check_rate_limit(first, 1000), Ok(()));
    }
    assert_eq!(state.check_rate_limit(first, 1059), Err(AuthError::RateLimitExceeded));
    assert_eq!(state.check_rate_limit(second, 1059), Ok(()));
    assert_eq!(state.get_rate_window(first), Some(RateWindow { count: 100, window_start: 1000 }));
    assert_eq!(state.get_rate_window(second), Some(RateWindow { count: 1, window_start: 1059 }));
    assert_eq!(state.get_rate_window(Address::new([3; 20])), None);
    assert_eq!(state.check_rate_limit(first, 1060), Ok(()));
    assert_eq!(state.get_rate_window(first), Some(RateWindow { count: 1, window_start: 1060 }));
}

#[test]
fn store_of_channels() {
    let mut state = ChannelState::new("wss://example.org".to_string());
    assert_eq!(state.network_rpc_url(), "wss://example.org");
    assert_eq!(state.get_channel(U256::from_u64(1)), None);
    state.update_channel(U256::from_u64(1), sample(1, 1000, 5));
    state.update_channel(U256::new(1, 0), sample(2, 10, 0));
    assert_eq!(state.get_channel(U256::from_u64(1)), Some(sample(1, 1000, 5)));
    assert_eq!(state.get_channel(U256::new(1, 0)), Some(sample(2, 10, 0)));
    assert_eq!(state.get_channel(U256::new(1, 1)), None);
    state.update_channel(U256::from_u64(1), sample(1, 900, 6));
    assert_eq!(state.get_channel(U256::from_u64(1)), Some(sample(1, 900, 6)));
    assert_eq!(state.get_channel(U256::new(1, 0)), Some(sample(2, 10, 0)));
}

#[test]
fn checks_against_the_record() {
    let record = sample(1, 1000, 5);
    assert_eq!(check_existing(&record, &sample(1, 1000, 6)), Ok(()));
    assert_eq!(check_existing(&record, &sample(1, 1000, 100)), Ok(()));
    assert_eq!(check_existing(&record, &sample(1, 1000, 5)), Err(AuthError::InvalidChannel));
    assert_eq!(check_existing(&record, &sample(1, 1000, 4)), Err(AuthError::InvalidChannel));
    assert_eq!(check_existing(&record, &sample(1, 999, 6)), Err(AuthError::InvalidChannel));
    assert_eq!(check_existing(&record, &sample(1, 1001, 6)), Err(AuthError::InvalidChannel));
}

#[test]
fn checks_against_the_contract() {
    let state = ChannelState::new("http://localhost:8545".to_string());
    let declared = sample(7, 1000, 0);
    let contract = contract_of(&declared);
    assert_eq!(state.validate_channel(&declared, &contract), Ok(()));

    let mut richer = contract;
    richer.balance = U256::from_u64(5000);
    assert_eq!(state.validate_channel(&declared, &richer), Ok(()));

    let mut poorer = contract;
    poorer.balance = U256::from_u64(999);
    assert_eq!(state.validate_channel(&declared, &poorer), Err(AuthError::InsufficientBalance));

    let mut expired = contract;
    expired.expiration = U256::from_u64(1);
    assert_eq!(state.validate_channel(&declared, &expired), Err(AuthError::Expired));

    let mut other = contract;
    other.channel_id = U256::from_u64(8);
    assert_eq!(state.validate_channel(&declared, &other), Err(AuthError::InvalidChannel));

    let mut other = contract;
    other.sender = Address::new([0xAB; 20]);
    assert_eq!(state.validate_channel(&declared, &other), Err(AuthError::InvalidChannel));

    let mut other = contract;
    other.recipient = Address::new([0xBA; 20]);
    assert_eq!(state.validate_channel(&declared, &other), Err(AuthError::InvalidChannel));

    let mut both = poorer;
    both.expiration = U256::from_u64(1);
    both.channel_id = U256::from_u64(8);
    assert_eq!(state.validate_channel(&declared, &both), Err(AuthError::InsufficientBalance));

    assert_eq!(check_first_use(&state, &declared, ContractReading::State(contract)), Ok(()));
    assert_eq!(
        check_first_use(&state, &sample(7, 1000, 1), ContractReading::State(contract)),
        Err(AuthError::InvalidChannel)
    );
    assert_eq!(
        check_first_use(&state, &declared, ContractReading::State(expired)),
        Err(AuthError::Expired)
    );
    let failed = ContractReading::Failed(AuthError::NetworkError("timed out".to_string()));
    assert_eq!(
        check_first_use(&state, &declared, failed),
        Err(AuthError::NetworkError("timed out".to_string()))
    );
    let failed = ContractReading::Failed(AuthError::ContractError("reverted".to_string()));
    assert_eq!(
        check_first_use(&state, &declared, failed),
        Err(AuthError::ContractError("reverted".to_string()))
    );
}

#[test]
fn debit_of_the_price() {
    assert_eq!(debit(&sample(1, 1000, 6), &U256::from_u64(100)), Ok(sample(1, 900, 6)));
    assert_eq!(debit(&sample(1, 100, 6), &U256::from_u64(100)), Ok(sample(1, 0, 6)));
    assert_eq!(debit(&sample(1, 100, 6), &U256::zero()), Ok(sample(1, 100, 6)));
    assert_eq!(
        debit(&sample(1, 99, 6), &U256::from_u64(100)),
        Err(AuthError::InsufficientBalance)
    );
    assert_eq!(debit(&sample(1, 0, 6), &U256::new(1, 0)), Err(AuthError::InsufficientBalance));
}

#[test]
fn status_of_each_error() {
    assert_eq!(StatusCode::from(AuthError::MissingHeaders).as_u16(), 400);
    assert_eq!(StatusCode::from(AuthError::InvalidSignature).as_u16(), 401);
    assert_eq!(StatusCode::from(AuthError::InvalidMessage).as_u16(), 400);
    assert_eq!(StatusCode::from(AuthError::InvalidNonce).as_u16(), 400);
    assert_eq!(StatusCode::from(AuthError::InsufficientBalance).as_u16(), 402);
    assert_eq!(StatusCode::from(AuthError::Expired).as_u16(), 408);
    assert_eq!(StatusCode::from(AuthError::InvalidChannel).as_u16(), 400);
    assert_eq!(StatusCode::from(AuthError::ChannelNotFound).as_u16(), 404);
    assert_eq!(StatusCode::from(AuthError::RateLimitExceeded).as_u16(), 429);
    assert_eq!(StatusCode::from(AuthError::ContractError("x".to_string())).as_u16(), 500);
    assert_eq!(StatusCode::from(AuthError::NetworkError("x".to_string())).as_u16(), 500);
    assert_eq!(StatusCode::from(AuthError::InvalidConfig).as_u16(), 400);
    assert_eq!(AuthError::Expired.status_code(), StatusCode::RequestTimeout);
    assert_eq!(StatusCode::NotFound.as_u16(), 404);
}

#[test]
fn fixed_window_across_a_reset() {
    let start = 1_700_000_000;
    let (window, ok) = charge(None, start);
    assert!(ok);
    let mut slot = Some(window);
    let mut admitted = 0;
    for _ in 0..150 {
        let (window, ok) = charge(slot, start + 59);
        slot = Some(window);
        admitted += ok as u64;
    }
    assert_eq!(admitted, 99);
    for _ in 0..150 {
        let (window, ok) = charge(slot, start + WINDOW);
        slot = Some(window);
        admitted += ok as u64;
    }
    assert_eq!(admitted, 199);
    assert_eq!(slot, Some(RateWindow { count: 100, window_start: start + WINDOW }));
}

#[test]
fn conditional_swap() {
    let mut state = ChannelState::new("http://localhost:8545".to_string());
    let id = U256::from_u64(1);
    assert!(!state.update_if(id, |_| true, sample(1, 900, 6)));
    assert_eq!(state.get_channel(id), None);
    state.update_channel(id, sample(1, 1000, 5));
    let nonce_is_five = |record: &PaymentChannel| record.nonce == U256::from_u64(5);
    assert!(state.update_if(id, nonce_is_five, sample(1, 900, 6)));
    assert_eq!(state.get_channel(id), Some(sample(1, 900, 6)));
    assert!(!state.update_if(id, nonce_is_five, sample(1, 800, 7)));
    assert_eq!(state.get_channel(id), Some(sample(1, 900, 6)));
}

#[test]
fn uint_from_big_endian_bytes() {
    let mut bytes = [0u8; 32];
    bytes[31] = 0xe8;
    bytes[30] = 0x03;
    assert_eq!(U256::from_be_bytes(&bytes), U256::from_u64(1000));
    assert_eq!(U256::from_be_bytes(&[0xff; 32]), U256::new(u128::MAX, u128::MAX));
    assert_eq!(U256::from_be_bytes(&[0; 32]), U256::zero());
    let mut split = [0u8; 32];
    split[15] = 1;
    split[16] = 2;
    assert_eq!(U256::from_be_bytes(&split), U256::new(1, 2 << 120));
    for value in [U256::new(7, 9), U256::new(u128::MAX, 0), U256::new(0, u128::MAX), U256::from_u64(6)] {
        assert_eq!(U256::from_be_bytes(&value.to_be_bytes()), value);
    }
    let ordered = [U256::zero(), U256::from_u64(1), U256::new(0, u128::MAX), U256::new(1, 0), U256::new(1, 1)];
    for pair in ordered.windows(2) {
        assert!(pair[0] < pair[1]);
        assert!(pair[0].lt(&pair[1]));
    }
}

#[test]
fn addresses() {
    assert_eq!(Address::new([7; 20]), Address::new([7; 20]));
    let mut other = [7u8; 20];
    other[19] = 8;
    assert_ne!(Address::new([7; 20]), Address::new(other));
    assert_eq!(Address::zero(), Address::new([0; 20]));
    assert_eq!(Address::new(other).bytes, other);
}
