//! Byte strings and the fixed-width account keys built from them.

use vstd::prelude::*;

verus! {

/// A party's identity: the 32 bytes of its public key.
pub type AccountId = [u8; 32];

/// The account that stands for "nobody": thirty-two zero bytes.
pub open spec fn zero_account() -> Seq<u8> {
    Seq::new(32, |i: int| 0u8)
}

/// Whether two byte strings hold the same bytes.
pub fn bytes_equal(left: &[u8], right: &[u8]) -> (equal: bool)
    ensures
        equal == (left@ == right@),
{
    if left.len() != right.len() {
        return false;
    }
    let mut i: usize = 0;
    while i < left.len()
        invariant
            i <= left.len(),
            left.len() == right.len(),
            forall|j: int| 0 <= j < i ==> left@[j] == right@[j],
        decreases left.len() - i,
    {
        if left[i] != right[i] {
            return false;
        }
        i += 1;
    }
    assert(left@ =~= right@);
    true
}

/// A fresh vector with the same bytes.
pub fn copy_bytes(source: &[u8]) -> (copy: Vec<u8>)
    ensures
        copy@ == source@,
{
    let mut copy: Vec<u8> = Vec::new();
    let mut i: usize = 0;
    while i < source.len()
        invariant
            i <= source.len(),
            copy@ == source@.subrange(0, i as int),
        decreases source.len() - i,
    {
        copy.push(source[i]);
        i += 1;
    }
    copy
}

/// Whether two accounts are the same party.
pub fn same_account(left: &AccountId, right: &AccountId) -> (equal: bool)
    ensures
        equal == (left@ == right@),
{
    bytes_equal(left.as_slice(), right.as_slice())
}

/// Whether an account is the all-zero placeholder.
pub fn is_zero_account(account: &AccountId) -> (zero: bool)
    ensures
        zero == (account@ == zero_account()),
{
    let mut i: usize = 0;
    while i < 32
        invariant
            i <= 32,
            forall|j: int| 0 <= j < i ==> account@[j] == 0u8,
        decreases 32 - i,
    {
        if account[i] != 0 {
            return false;
        }
        i += 1;
    }
    assert(account@ =~= zero_account());
    true
}

/// The byte strings that a sequence of byte vectors holds.
pub open spec fn byte_strings(list: Seq<Vec<u8>>) -> Seq<Seq<u8>> {
    Seq::new(list.len(), |i: int| list[i]@)
}

/// The byte strings that a sequence of accounts holds.
pub open spec fn account_strings(list: Seq<AccountId>) -> Seq<Seq<u8>> {
    Seq::new(list.len(), |i: int| list[i]@)
}

/// The deep view of a byte vector is its view.
pub proof fn lemma_bytes_deep_view(bytes: &Vec<u8>)
    ensures
        bytes.deep_view() == bytes@,
{
}

/// The deep view of an account is its view.
pub proof fn lemma_account_deep_view(account: &AccountId)
    ensures
        account.deep_view() == account@,
{
}

/// The deep view of a list of byte vectors is the list of their views.
pub proof fn lemma_byte_strings_deep_view(list: &Vec<Vec<u8>>)
    ensures
        list.deep_view() == byte_strings(list@),
{
    assert forall|i: int| 0 <= i < list@.len() implies list@[i].deep_view() == list@[i]@ by {
        lemma_bytes_deep_view(&list@[i]);
    }
}

/// The deep view of a list of accounts is the list of their views.
pub proof fn lemma_account_strings_deep_view(list: &Vec<AccountId>)
    ensures
        list.deep_view() == account_strings(list@),
{
    assert forall|i: int| 0 <= i < list@.len() implies list@[i].deep_view() == list@[i]@ by {
        lemma_account_deep_view(&list@[i]);
    }
}

/// A fresh list with the same byte strings.
pub fn copy_byte_strings(list: &Vec<Vec<u8>>) -> (copy: Vec<Vec<u8>>)
    ensures
        byte_strings(copy@) == byte_strings(list@),
{
    let mut copy: Vec<Vec<u8>> = Vec::new();
    let mut i: usize = 0;
    while i < list.len()
        invariant
            i <= list@.len(),
            copy@.len() == i,
            forall|j: int| 0 <= j < i ==> copy@[j]@ == list@[j]@,
        decreases list@.len() - i,
    {
        copy.push(copy_bytes(list[i].as_slice()));
        i += 1;
    }
    copy
}

} // verus!
