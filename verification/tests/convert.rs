use nft_renting::renting::convert::{
    account_to_bytes, convert_bytes_to_accountid, convert_string_to_accountid, hex_string_to_vec, hex_to_deci,
};

fn address_of(key: &[u8; 32]) -> String {
    let mut raw = vec![42u8];
    raw.extend_from_slice(key);
    raw.extend_from_slice(&[7u8, 9u8]);
    bs58::encode(raw).into_string()
}

#[test]
fn hex_text_gives_its_bytes() {
    assert_eq!(hex_string_to_vec(b"0x0a0b"), vec![10u8, 11u8]);
    assert_eq!(hex_string_to_vec(b"ff00"), vec![255u8, 0u8]);
    assert_eq!(hex_string_to_vec(b""), Vec::<u8>::new());
}

#[test]
fn hex_marker_is_dropped_wherever_it_stands() {
    assert_eq!(hex_string_to_vec(b"0x120x34"), vec![0x12u8, 0x34u8]);
    assert_eq!(hex_string_to_vec(b"00xx"), vec![255u8]);
}

#[test]
fn hex_single_last_character_is_a_group() {
    assert_eq!(hex_string_to_vec(b"abc"), vec![0xabu8, 0x0cu8]);
}

#[test]
fn hex_upper_case_and_other_characters_give_255() {
    assert_eq!(hex_string_to_vec(b"AB"), vec![255u8]);
    assert_eq!(hex_string_to_vec(b"zz10"), vec![255u8, 16u8]);
}

#[test]
fn hex_group_ignores_white_space_at_its_end() {
    assert_eq!(hex_to_deci(b"a "), 10);
    assert_eq!(hex_to_deci(b"  "), 0);
    assert_eq!(hex_to_deci(b" a"), 255);
    assert_eq!(hex_to_deci(b""), 0);
    assert_eq!(hex_to_deci(b"7"), 7);
    assert_eq!(hex_to_deci(b"7f"), 127);
}

#[test]
fn account_needs_thirty_two_bytes() {
    assert_eq!(account_to_bytes(&[5u8; 32]), Some([5u8; 32]));
    assert_eq!(account_to_bytes(&[5u8; 31]), None);
    assert_eq!(account_to_bytes(&[5u8; 33]), None);
    assert_eq!(convert_bytes_to_accountid([3u8; 32]), [3u8; 32]);
}

#[test]
fn address_names_the_key_behind_its_first_byte() {
    let mut key = [0u8; 32];
    for (i, byte) in key.iter_mut().enumerate() {
        *byte = (i as u8) * 3 + 1;
    }
    let address = address_of(&key);
    assert_eq!(convert_string_to_accountid(address.as_bytes()), Some(key));
}

#[test]
fn short_address_is_filled_with_255() {
    let address = bs58::encode(vec![1u8, 2u8, 3u8]).into_string();
    let mut expected = [255u8; 32];
    expected[0] = 2;
    expected[1] = 3;
    assert_eq!(convert_string_to_accountid(address.as_bytes()), Some(expected));
}

#[test]
fn address_outside_the_alphabet_names_nobody() {
    assert_eq!(convert_string_to_accountid(b"0OIl"), None);
    assert_eq!(convert_string_to_accountid("h\u{e9}llo".as_bytes()), None);
}

#[test]
fn address_of_more_than_thirty_five_bytes_names_nobody() {
    let address = bs58::encode(vec![9u8; 36]).into_string();
    assert_eq!(convert_string_to_accountid(address.as_bytes()), None);
    let address = bs58::encode(vec![9u8; 35]).into_string();
    assert_eq!(convert_string_to_accountid(address.as_bytes()), Some([9u8; 32]));
}
