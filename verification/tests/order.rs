use nft_renting::renting::order::Order;
use nft_renting::renting::parse::{order_from_members, parse_to_order};
use nft_renting::renting::payload::{is_readable, read_members, Member, Value};
use nft_renting::renting::signature::{signature_outcome, verify_signature};
use nft_renting::renting::Error;
use sp_core::Pair;

fn address_of(key: &[u8; 32]) -> String {
    let mut raw = vec![42u8];
    raw.extend_from_slice(key);
    raw.extend_from_slice(&[0u8, 0u8]);
    bs58::encode(raw).into_string()
}

fn chars(text: &str) -> Vec<char> {
    text.chars().collect()
}

const LENDER: [u8; 32] = [1u8; 32];
const BORROWER: [u8; 32] = [2u8; 32];
const NOBODY: [u8; 32] = [0u8; 32];

#[test]
fn blank_order_states_nothing() {
    let order = Order::new();
    assert_eq!(order.lender, [0u8; 32]);
    assert_eq!(order.borrower, [0u8; 32]);
    assert_eq!(order.fee, 0);
    assert_eq!(order.token, Vec::<u8>::new());
    assert_eq!(order.due_date, 0);
    assert_eq!(order.paid_type, 0);
    assert_eq!(Order::default(), order);
    assert_eq!(order.duplicate(), order);
}

#[test]
fn encoding_puts_the_fields_one_after_the_other() {
    let order = Order {
        lender: [1u8; 32],
        borrower: [2u8; 32],
        fee: 0x0102,
        token: vec![0xaa, 0xbb, 0xcc],
        due_date: 1_000_000,
        paid_type: 2,
    };
    let mut expected = vec![1u8; 32];
    expected.extend_from_slice(&[2u8; 32]);
    expected.extend_from_slice(&[2, 1, 0, 0, 0, 0, 0, 0]);
    expected.push(12);
    expected.extend_from_slice(&[0xaa, 0xbb, 0xcc]);
    expected.extend_from_slice(&[0x40, 0x42, 0x0f, 0, 0, 0, 0, 0]);
    expected.push(2);
    assert_eq!(order.encode(), expected);
}

#[test]
fn encoding_of_a_long_token_has_a_two_byte_length() {
    let mut order = Order::new();
    order.token = vec![7u8; 100];
    let encoded = order.encode();
    assert_eq!(encoded.len(), 32 + 32 + 8 + 2 + 100 + 8 + 1);
    assert_eq!(&encoded[72..74], &[0x91, 0x01]);
    order.token = vec![7u8; 20000];
    let encoded = order.encode();
    assert_eq!(&encoded[72..76], &[0x82, 0x38, 0x01, 0x00]);
}

#[test]
fn payload_is_read_into_its_members() {
    let members = read_members(br#"{"fee": 5, "token": "0x0a", "x": [1, 2], "n": -7.5e3}"#).unwrap();
    assert_eq!(
        members,
        vec![
            Member { key: chars("fee"), value: Value::Number(5) },
            Member { key: chars("token"), value: Value::Text(chars("0x0a")) },
            Member { key: chars("x"), value: Value::Other },
            Member { key: chars("n"), value: Value::Number(7) },
        ]
    );
}

#[test]
fn payload_that_is_no_object_has_no_members() {
    assert_eq!(read_members(b"[1, 2]"), None);
    assert_eq!(read_members(b"{\"fee\": }"), None);
    assert_eq!(read_members(b""), None);
    assert_eq!(read_members(&[0xff, 0xfe]), None);
    assert_eq!(read_members("{\"k\u{e9}y\": 1}".as_bytes()), None);
    assert_eq!(read_members(b"{}"), Some(vec![]));
}

#[test]
fn numbers_beyond_the_limits_are_not_readable() {
    assert!(is_readable(br#"{"fee": 18446744073709551615}"#));
    assert!(!is_readable(br#"{"fee": 18446744073709551616}"#));
    assert!(is_readable(br#"{"fee": 1e2147483647}"#));
    assert!(!is_readable(br#"{"fee": 1e2147483648}"#));
    assert!(!is_readable(br#"{"fee": 1E-2147483648}"#));
    assert!(is_readable(br#"{"token": "99999999999999999999999999999999"}"#));
    assert!(is_readable(br#"{"token": "a\"99999999999999999999999999999999"}"#));
    assert!(!is_readable(br#"{"token": "a\\"99999999999999999999999999999999"}"#));
    assert!(is_readable(br#"{"fee": 0.00000000000000000000000000000001}"#));
    assert_eq!(read_members(br#"{"fee": 18446744073709551616}"#), None);
    assert_eq!(
        read_members(br#"{"fee": 18446744073709551615}"#),
        Some(vec![Member { key: chars("fee"), value: Value::Number(u64::MAX) }])
    );
}

#[test]
fn payload_states_an_order() {
    let message = format!(
        r#"{{"lender": "{}", "borrower": "{}", "fee": 5, "token": "0x0a0b", "due_date": 1000, "paid_type": 1, "note": "hi"}}"#,
        address_of(&LENDER),
        address_of(&BORROWER)
    );
    let order = parse_to_order(&LENDER, &BORROWER, &message.into_bytes(), 10).unwrap().unwrap();
    assert_eq!(
        order,
        Order { lender: LENDER, borrower: BORROWER, fee: 5, token: vec![10, 11], due_date: 1000, paid_type: 1 }
    );
}

#[test]
fn missing_keys_leave_the_blank_values() {
    let order = parse_to_order(&LENDER, &BORROWER, &b"{}".to_vec(), 10).unwrap().unwrap();
    assert_eq!(order, Order::new());
}

#[test]
fn borrower_is_passed_over_while_nobody_is_expected() {
    let message = format!(r#"{{"borrower": 17, "fee": 3}}"#);
    let order = parse_to_order(&LENDER, &NOBODY, &message.clone().into_bytes(), 10).unwrap().unwrap();
    assert_eq!(order.borrower, NOBODY);
    assert_eq!(order.fee, 3);
    assert_eq!(parse_to_order(&LENDER, &BORROWER, &message.into_bytes(), 10), None);
}

#[test]
fn other_lender_is_refused() {
    let message = format!(r#"{{"lender": "{}"}}"#, address_of(&BORROWER));
    assert_eq!(parse_to_order(&LENDER, &NOBODY, &message.into_bytes(), 10), Some(Err(Error::NotMatchLender)));
}

#[test]
fn other_borrower_is_refused() {
    let message = format!(r#"{{"borrower": "{}"}}"#, address_of(&LENDER));
    assert_eq!(
        parse_to_order(&LENDER, &BORROWER, &message.into_bytes(), 10),
        Some(Err(Error::NotMatchBorrower))
    );
}

#[test]
fn due_date_must_lie_ahead() {
    assert_eq!(
        parse_to_order(&LENDER, &NOBODY, &br#"{"due_date": 10}"#.to_vec(), 10),
        Some(Err(Error::TimeOver))
    );
    assert_eq!(
        parse_to_order(&LENDER, &NOBODY, &br#"{"due_date": 11}"#.to_vec(), 10).unwrap().unwrap().due_date,
        11
    );
}

#[test]
fn paid_type_is_one_of_three() {
    assert_eq!(
        parse_to_order(&LENDER, &NOBODY, &br#"{"paid_type": 3}"#.to_vec(), 10),
        Some(Err(Error::NotPaidType))
    );
    assert_eq!(
        parse_to_order(&LENDER, &NOBODY, &br#"{"paid_type": 2}"#.to_vec(), 10).unwrap().unwrap().paid_type,
        2
    );
}

#[test]
fn first_failing_member_decides() {
    assert_eq!(
        parse_to_order(&LENDER, &NOBODY, &br#"{"paid_type": 9, "fee": "x"}"#.to_vec(), 10),
        Some(Err(Error::NotPaidType))
    );
    assert_eq!(parse_to_order(&LENDER, &NOBODY, &br#"{"fee": "x", "paid_type": 9}"#.to_vec(), 10), None);
}

#[test]
fn later_member_overrides_an_earlier_one() {
    let order = parse_to_order(&LENDER, &NOBODY, &br#"{"fee": 1, "fee": 2}"#.to_vec(), 10).unwrap().unwrap();
    assert_eq!(order.fee, 2);
}

#[test]
fn wrong_kind_of_value_cannot_be_read() {
    assert_eq!(parse_to_order(&LENDER, &NOBODY, &br#"{"token": 5}"#.to_vec(), 10), None);
    assert_eq!(parse_to_order(&LENDER, &NOBODY, &br#"{"lender": 5}"#.to_vec(), 10), None);
    assert_eq!(parse_to_order(&LENDER, &NOBODY, &br#"{"lender": "0OIl"}"#.to_vec(), 10), None);
    assert_eq!(parse_to_order(&LENDER, &NOBODY, &br#"{"due_date": "1"}"#.to_vec(), 10), None);
    assert_eq!(parse_to_order(&LENDER, &NOBODY, &b"not json".to_vec(), 10), None);
}

#[test]
fn keys_are_known_by_their_low_bytes() {
    let members = vec![Member { key: vec!['\u{166}', 'e', 'e'], value: Value::Number(8) }];
    let order = order_from_members(&LENDER, &NOBODY, &members, 10).unwrap().unwrap();
    assert_eq!(order.fee, 8);
}

#[test]
fn token_text_outside_ascii_cannot_be_read() {
    let members = vec![Member { key: chars("token"), value: Value::Text(vec!['\u{e9}', '0']) }];
    assert_eq!(order_from_members(&LENDER, &NOBODY, &members, 10), None);
}

#[test]
fn signature_of_the_signer_passes() {
    let pair = sp_core::sr25519::Pair::from_seed(&[7u8; 32]);
    let message = b"rent me".to_vec();
    let signature = pair.sign(&message).0.to_vec();
    let signer: [u8; 32] = pair.public().0;
    assert_eq!(verify_signature(&message, &signature, &signer), Ok(()));
}

#[test]
fn signature_under_other_data_fails() {
    let pair = sp_core::sr25519::Pair::from_seed(&[7u8; 32]);
    let signature = pair.sign(b"rent me").0.to_vec();
    let signer: [u8; 32] = pair.public().0;
    assert_eq!(verify_signature(&b"rent you".to_vec(), &signature, &signer), Err(Error::SignatureVerifyError));
}

#[test]
fn signature_of_another_signer_fails() {
    let pair = sp_core::sr25519::Pair::from_seed(&[7u8; 32]);
    let other = sp_core::sr25519::Pair::from_seed(&[8u8; 32]);
    let message = b"rent me".to_vec();
    let signature = pair.sign(&message).0.to_vec();
    let signer: [u8; 32] = other.public().0;
    assert_eq!(verify_signature(&message, &signature, &signer), Err(Error::SignatureVerifyError));
}

#[test]
fn signature_of_another_length_fails() {
    let pair = sp_core::sr25519::Pair::from_seed(&[7u8; 32]);
    let message = b"rent me".to_vec();
    let mut signature = pair.sign(&message).0.to_vec();
    let signer: [u8; 32] = pair.public().0;
    signature.push(0);
    assert_eq!(verify_signature(&message, &signature, &signer), Err(Error::SignatureVerifyError));
    assert_eq!(verify_signature(&message, &Vec::new(), &signer), Err(Error::SignatureVerifyError));
}

#[test]
fn ed25519_signature_passes_too() {
    let pair = sp_core::ed25519::Pair::from_seed(&[7u8; 32]);
    let message = b"rent me".to_vec();
    let signature = pair.sign(&message).0.to_vec();
    let signer: [u8; 32] = pair.public().0;
    assert_eq!(verify_signature(&message, &signature, &signer), Ok(()));
}

#[test]
fn only_a_valid_signature_passes() {
    assert_eq!(signature_outcome(Some(true)), Ok(()));
    assert_eq!(signature_outcome(Some(false)), Err(Error::SignatureVerifyError));
    assert_eq!(signature_outcome(None), Err(Error::SignatureVerifyError));
}

#[test]
fn borrowers_half_is_read_with_the_lender_it_names() {
    let message = format!(
        r#"{{"fee": 5, "lender": "{}", "borrower": "{}"}}"#,
        address_of(&LENDER),
        address_of(&BORROWER)
    )
    .into_bytes();
    let order = nft_renting::renting::parse::parse_for_borrower(&BORROWER, &message, 10).unwrap().unwrap();
    assert_eq!(order.lender, LENDER);
    assert_eq!(order.borrower, BORROWER);
    assert_eq!(Some(Ok(order)), parse_to_order(&LENDER, &BORROWER, &message, 10));
    let two = format!(
        r#"{{"lender": "{}", "lender": "{}"}}"#,
        address_of(&LENDER),
        address_of(&BORROWER)
    )
    .into_bytes();
    assert_eq!(
        nft_renting::renting::parse::parse_for_borrower(&BORROWER, &two, 10),
        Some(Err(Error::NotMatchLender))
    );
    let members = vec![
        Member { key: chars("lender"), value: Value::Number(1) },
        Member { key: chars("lender"), value: Value::Text(chars(&address_of(&LENDER))) },
    ];
    assert_eq!(nft_renting::renting::parse::first_named(&members, b"lender"), LENDER);
    assert_eq!(nft_renting::renting::parse::first_named(&members, b"borrower"), NOBODY);
}
