//! Conversions between the textual forms that a payload carries and the
//! bytes that the ledger works on: hexadecimal token ids and base-58 account
//! addresses.

use vstd::prelude::*;
use crate::bytes::AccountId;

verus! {

/// The account with the given bytes, where there are thirty-two of them.
pub fn account_to_bytes(account: &[u8]) -> (bytes: Option<AccountId>)
    ensures
        match bytes {
            Some(array) => account@.len() == 32 && array@ == account@,
            None => account@.len() != 32,
        },
{
    if account.len() != 32 {
        return None;
    }
    let mut bytes: AccountId = [0u8; 32];
    let mut i: usize = 0;
    while i < 32
        invariant
            i <= 32,
            account@.len() == 32,
            forall|j: int| 0 <= j < i ==> bytes@[j] == account@[j],
        decreases 32 - i,
    {
        bytes[i] = account[i];
        i += 1;
    }
    Some(bytes)
}

/// The account whose key is `bytes`.
pub fn convert_bytes_to_accountid(bytes: [u8; 32]) -> (account: AccountId)
    ensures
        account@ == bytes@,
{
    bytes
}

/// Whether a byte is white space: a blank, or one of tab, line feed,
/// vertical tab, form feed and carriage return.
pub open spec fn is_space(byte: u8) -> bool {
    byte == 32 || (9 <= byte && byte <= 13)
}

/// The value of a lower-case hexadecimal digit.
pub open spec fn hex_digit(byte: u8) -> Option<u8> {
    if 48 <= byte && byte <= 57 {
        Some((byte - 48) as u8)
    } else if 97 <= byte && byte <= 102 {
        Some((byte - 87) as u8)
    } else {
        None
    }
}

/// A text without the white space at its end.
pub open spec fn trim_end(text: Seq<u8>) -> Seq<u8>
    decreases text.len(),
{
    if text.len() > 0 && is_space(text.last()) {
        trim_end(text.drop_last())
    } else {
        text
    }
}

/// The byte that a group of at most two characters denotes: white space at
/// its end does not count, nothing left denotes zero, one or two
/// hexadecimal digits denote their value, and anything else denotes 255.
pub open spec fn hex_group_value(group: Seq<u8>) -> u8 {
    let digits = trim_end(group);
    if digits.len() == 0 {
        0
    } else if digits.len() == 1 {
        match hex_digit(digits[0]) {
            Some(low) => low,
            None => 255,
        }
    } else {
        match (hex_digit(digits[0]), hex_digit(digits[1])) {
            (Some(high), Some(low)) => (high * 16 + low) as u8,
            _ => 255,
        }
    }
}

/// A text without the marker `0x`, wherever it stands: the text is read
/// from the left, and what follows a marker is read on after it.
pub open spec fn without_markers(text: Seq<u8>) -> Seq<u8>
    decreases text.len(),
{
    if text.len() < 2 {
        text
    } else if text[0] == 48 && text[1] == 120 {
        without_markers(text.skip(2))
    } else {
        seq![text[0]] + without_markers(text.skip(1))
    }
}

/// The bytes that the groups of two characters of a text denote, from the
/// left; a single character at the end is a group of its own.
pub open spec fn hex_groups(text: Seq<u8>) -> Seq<u8>
    decreases text.len(),
{
    if text.len() == 0 {
        Seq::empty()
    } else if text.len() == 1 {
        seq![hex_group_value(text)]
    } else {
        seq![hex_group_value(text.subrange(0, 2))] + hex_groups(text.skip(2))
    }
}

/// The bytes that a hexadecimal text denotes, its `0x` markers left out.
pub open spec fn hex_string_value(text: Seq<u8>) -> Seq<u8> {
    hex_groups(without_markers(text))
}

fn digit_value(byte: u8) -> (value: Option<u8>)
    ensures
        value == hex_digit(byte),
        value matches Some(v) ==> v < 16,
{
    if 48 <= byte && byte <= 57 {
        Some(byte - 48)
    } else if 97 <= byte && byte <= 102 {
        Some(byte - 87)
    } else {
        None
    }
}

fn space(byte: u8) -> (yes: bool)
    ensures
        yes == is_space(byte),
{
    byte == 32 || (9 <= byte && byte <= 13)
}

/// The byte that a group of at most two characters denotes.
pub fn hex_to_deci(group: &[u8]) -> (value: u8)
    requires
        group@.len() <= 2,
    ensures
        value == hex_group_value(group@),
{
    let mut end: usize = group.len();
    assert(group@.subrange(0, end as int) =~= group@);
    while end > 0 && space(group[end - 1])
        invariant
            end <= group@.len(),
            trim_end(group@) == trim_end(group@.subrange(0, end as int)),
        decreases end,
    {
        assert(group@.subrange(0, end as int).drop_last() =~= group@.subrange(0, end - 1));
        end -= 1;
    }
    if end == 0 {
        0
    } else if end == 1 {
        match digit_value(group[0]) {
            Some(low) => low,
            None => 255,
        }
    } else {
        match (digit_value(group[0]), digit_value(group[1])) {
            (Some(high), Some(low)) => high * 16 + low,
            _ => 255,
        }
    }
}

/// The bytes that a hexadecimal text denotes, its `0x` markers left out.
pub fn hex_string_to_vec(text: &[u8]) -> (bytes: Vec<u8>)
    ensures
        bytes@ == hex_string_value(text@),
{
    let mut digits: Vec<u8> = Vec::new();
    let mut i: usize = 0;
    assert(text@.skip(0) =~= text@);
    while i < text.len()
        invariant
            i <= text@.len(),
            digits@ + without_markers(text@.skip(i as int)) == without_markers(text@),
        decreases text@.len() - i,
    {
        let ghost rest = text@.skip(i as int);
        if i + 1 < text.len() && text[i] == 48 && text[i + 1] == 120 {
            assert(rest.skip(2) =~= text@.skip(i + 2));
            i += 2;
        } else {
            proof {
                if rest.len() >= 2 {
                    assert(rest.skip(1) =~= text@.skip(i + 1));
                    assert(digits@.push(text@[i as int]) + without_markers(rest.skip(1)) =~= digits@
                        + (seq![rest[0]] + without_markers(rest.skip(1))));
                } else {
                    assert(digits@.push(text@[i as int]) + without_markers(text@.skip(i + 1)) =~= digits@
                        + rest);
                }
            }
            digits.push(text[i]);
            i += 1;
        }
    }
    let mut bytes: Vec<u8> = Vec::new();
    let mut at: usize = 0;
    assert(digits@.skip(0) =~= digits@);
    while at < digits.len()
        invariant
            at <= digits@.len(),
            bytes@ + hex_groups(digits@.skip(at as int)) == hex_groups(digits@),
        decreases digits@.len() - at,
    {
        let ghost rest = digits@.skip(at as int);
        if at + 1 < digits.len() {
            let group = [digits[at], digits[at + 1]];
            assert(group@ =~= rest.subrange(0, 2));
            let value = hex_to_deci(group.as_slice());
            proof {
                assert(rest.skip(2) =~= digits@.skip(at + 2));
                assert(bytes@.push(value) + hex_groups(rest.skip(2)) =~= bytes@
                    + (seq![value] + hex_groups(rest.skip(2))));
            }
            bytes.push(value);
            at += 2;
        } else {
            let group = [digits[at]];
            assert(group@ =~= rest);
            let value = hex_to_deci(group.as_slice());
            bytes.push(value);
            at += 1;
        }
    }
    bytes
}

/// The bytes that a base-58 text denotes in the Bitcoin alphabet; `None`
/// where a character of the text is outside that alphabet.
pub uninterp spec fn base58_decoding(text: Seq<u8>) -> Option<Seq<u8>>;

/// How many bytes hold a base-58 address: a prefix byte, the key, two check bytes.
pub const ADDRESS_BYTES: usize = 35;

/// The account that a base-58 address names: the address is decoded into
/// thirty-five bytes that all held 255, and the account is what then stands
/// in the thirty-two bytes after the first. There is none where the text is
/// no base-58 text or denotes more than thirty-five bytes.
pub open spec fn address_account(text: Seq<u8>) -> Option<Seq<u8>> {
    match base58_decoding(text) {
        Some(decoded) => if decoded.len() <= 35 {
            Some((decoded + Seq::new((35 - decoded.len()) as nat, |i: int| 255u8)).subrange(1, 33))
        } else {
            None
        },
        None => None,
    }
}

/// `bs58::decode(text).into(buffer)`: decodes a base-58 text into the front
/// of a buffer. Where the text is base-58 and what it denotes fits into the
/// buffer, the call returns how many bytes it wrote, the buffer starts with
/// what the text denotes, and the bytes behind stay as they were. Otherwise
/// the call fails, and of the buffer only the length is known.
#[verifier::external_body]
fn base58_into(text: &[u8], buffer: &mut Vec<u8>) -> (written: Option<usize>)
    ensures
        final(buffer)@.len() == old(buffer)@.len(),
        match written {
            Some(count) => {
                &&& base58_decoding(text@) matches Some(decoded)
                &&& decoded.len() == count
                &&& count <= old(buffer)@.len()
                &&& final(buffer)@ == decoded + old(buffer)@.skip(count as int)
            },
            None => base58_decoding(text@) matches Some(decoded) ==> decoded.len() > old(buffer)@.len(),
        },
{
    bs58::decode(text).into(buffer).ok()
}

/// The account that a base-58 address names, if it names one.
pub fn convert_string_to_accountid(account_str: &[u8]) -> (account: Option<AccountId>)
    ensures
        match account {
            Some(bytes) => address_account(account_str@) == Some(bytes@),
            None => address_account(account_str@) is None,
        },
{
    let mut output: Vec<u8> = vec![255u8; ADDRESS_BYTES];
    match base58_into(account_str, &mut output) {
        None => None,
        Some(count) => {
            let mut array: AccountId = [0u8; 32];
            let mut i: usize = 0;
            while i < 32
                invariant
                    i <= 32,
                    output@.len() == 35,
                    forall|j: int| 0 <= j < i ==> array@[j] == output@[j + 1],
                decreases 32 - i,
            {
                array[i] = output[i + 1];
                i += 1;
            }
            Some(array)
        },
    }
}

} // verus!
