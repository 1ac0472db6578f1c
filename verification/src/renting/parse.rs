//! From a payload's members to the order that they state.

use vstd::prelude::*;
use crate::bytes::{bytes_equal, is_zero_account, zero_account, AccountId};
use crate::renting::convert::{address_account, convert_string_to_accountid, hex_string_to_vec, hex_string_value};
use crate::renting::order::{Order, OrderView};
use crate::renting::payload::{
    low_bytes, member_views, payload_members, read_members, to_low_bytes, Member, MemberView, Value,
    ValueView,
};
use crate::renting::Error;

verus! {

/// The key `lender`.
pub const LENDER: [u8; 6] = [108, 101, 110, 100, 101, 114];

/// The key `borrower`.
pub const BORROWER: [u8; 8] = [98, 111, 114, 114, 111, 119, 101, 114];

/// The key `fee`.
pub const FEE: [u8; 3] = [102, 101, 101];

/// The key `token`.
pub const TOKEN: [u8; 5] = [116, 111, 107, 101, 110];

/// The key `due_date`.
pub const DUE_DATE: [u8; 8] = [100, 117, 101, 95, 100, 97, 116, 101];

/// The key `paid_type`.
pub const PAID_TYPE: [u8; 9] = [112, 97, 105, 100, 95, 116, 121, 112, 101];

/// Whether every byte is below 128.
pub open spec fn is_ascii(text: Seq<u8>) -> bool {
    forall|i: int| 0 <= i < text.len() ==> text[i] < 128
}

/// What reading a payload comes to: `None` where it cannot be read as an
/// order at all, else the order or the reason for which it is refused.
pub type Parsed = Option<Result<OrderView, Error>>;

/// The account that a member names where it holds the text of an address.
pub open spec fn party_of(value: ValueView) -> Option<Seq<u8>> {
    match value {
        ValueView::Text(chars) => address_account(low_bytes(chars)),
        _ => None,
    }
}

/// The number that a member holds, where it holds one.
pub open spec fn number_of(value: ValueView) -> Option<u64> {
    match value {
        ValueView::Number(number) => Some(number),
        _ => None,
    }
}

/// The token that a member names where it holds a text of ASCII
/// characters that spells at most `u32::MAX` bytes.
pub open spec fn token_of(value: ValueView) -> Option<Seq<u8>> {
    match value {
        ValueView::Text(chars) => if is_ascii(low_bytes(chars)) && hex_string_value(low_bytes(chars)).len()
            <= u32::MAX {
            Some(hex_string_value(low_bytes(chars)))
        } else {
            None
        },
        _ => None,
    }
}

/// The order after one more member was read. A key is known by the lowest
/// eight bits of its characters. The lender and the borrower must be the
/// accounts that the reader expects, the due date must lie after `now`, and
/// the way of payment must be one of 0, 1 and 2. While no borrower is
/// expected, the key `borrower` is passed over, as every unknown key is.
pub open spec fn with_member(
    order: OrderView,
    lender: Seq<u8>,
    borrower: Seq<u8>,
    member: MemberView,
    now: u64,
) -> Parsed {
    let key = low_bytes(member.key);
    if key == LENDER@ {
        match party_of(member.value) {
            Some(account) => if account == lender {
                Some(Ok(OrderView { lender, ..order }))
            } else {
                Some(Err(Error::NotMatchLender))
            },
            None => None,
        }
    } else if key == BORROWER@ && borrower != zero_account() {
        match party_of(member.value) {
            Some(account) => if account == borrower {
                Some(Ok(OrderView { borrower, ..order }))
            } else {
                Some(Err(Error::NotMatchBorrower))
            },
            None => None,
        }
    } else if key == FEE@ {
        match number_of(member.value) {
            Some(fee) => Some(Ok(OrderView { fee, ..order })),
            None => None,
        }
    } else if key == TOKEN@ {
        match token_of(member.value) {
            Some(token) => Some(Ok(OrderView { token, ..order })),
            None => None,
        }
    } else if key == DUE_DATE@ {
        match number_of(member.value) {
            Some(due_date) => if due_date > now {
                Some(Ok(OrderView { due_date, ..order }))
            } else {
                Some(Err(Error::TimeOver))
            },
            None => None,
        }
    } else if key == PAID_TYPE@ {
        match number_of(member.value) {
            Some(paid_type) => if paid_type <= 2 {
                Some(Ok(OrderView { paid_type: paid_type as u8, ..order }))
            } else {
                Some(Err(Error::NotPaidType))
            },
            None => None,
        }
    } else {
        Some(Ok(order))
    }
}

/// The order after all members were read, one after the other; reading
/// ends at the first member that cannot be read or is refused.
pub open spec fn with_members(
    order: OrderView,
    lender: Seq<u8>,
    borrower: Seq<u8>,
    members: Seq<MemberView>,
    now: u64,
) -> Parsed
    decreases members.len(),
{
    if members.len() == 0 {
        Some(Ok(order))
    } else {
        match with_member(order, lender, borrower, members[0], now) {
            Some(Ok(next)) => with_members(next, lender, borrower, members.skip(1), now),
            other => other,
        }
    }
}

/// The order that a payload states to a reader who expects the given
/// lender and borrower at the time `now`. What a member does not state is
/// as in the blank order.
pub open spec fn parsed_order(lender: Seq<u8>, borrower: Seq<u8>, message: Seq<u8>, now: u64) -> Parsed {
    match payload_members(message) {
        Some(members) => with_members(OrderView::blank(), lender, borrower, members, now),
        None => None,
    }
}

/// The account that a payload names under a key: that of its first member
/// with the key that names an account at all, and nobody where none does.
pub open spec fn named_party(members: Seq<MemberView>, key: Seq<u8>) -> Seq<u8>
    decreases members.len(),
{
    if members.len() == 0 {
        zero_account()
    } else if low_bytes(members[0].key) == key && party_of(members[0].value) is Some {
        party_of(members[0].value)->Some_0
    } else {
        named_party(members.skip(1), key)
    }
}

/// The order that a payload states to the borrower who made it: the
/// borrower is expected, and as the lender whoever the payload names.
pub open spec fn parsed_for_borrower(borrower: Seq<u8>, message: Seq<u8>, now: u64) -> Parsed {
    match payload_members(message) {
        Some(members) => with_members(
            OrderView::blank(),
            named_party(members, LENDER@),
            borrower,
            members,
            now,
        ),
        None => None,
    }
}

/// Two readers of the same members, who expect the same borrower, read the
/// same order where both read one: each `lender` member has then named the
/// lender that either expects, and the time decides only whether an order
/// is read, not which.
pub proof fn lemma_readers_agree(
    order: OrderView,
    lender: Seq<u8>,
    other_lender: Seq<u8>,
    borrower: Seq<u8>,
    members: Seq<MemberView>,
    now: u64,
    later: u64,
    first: OrderView,
    second: OrderView,
)
    requires
        with_members(order, lender, borrower, members, now) == Some(Ok::<OrderView, Error>(first)),
        with_members(order, other_lender, borrower, members, later) == Some(Ok::<OrderView, Error>(second)),
    ensures
        first == second,
    decreases members.len(),
{
    if members.len() > 0 {
        let next = with_member(order, lender, borrower, members[0], now)->Some_0->Ok_0;
        let other = with_member(order, other_lender, borrower, members[0], later)->Some_0->Ok_0;
        assert(next == other);
        lemma_readers_agree(next, lender, other_lender, borrower, members.skip(1), now, later, first, second);
    }
}

/// What came of reading, as plain values.
pub open spec fn parsed_view(parsed: Option<Result<Order, Error>>) -> Parsed {
    match parsed {
        Some(Ok(order)) => Some(Ok(order@)),
        Some(Err(e)) => Some(Err(e)),
        None => None,
    }
}

fn text_is_ascii(text: &Vec<u8>) -> (yes: bool)
    ensures
        yes == is_ascii(text@),
{
    let mut i: usize = 0;
    while i < text.len()
        invariant
            i <= text@.len(),
            forall|j: int| 0 <= j < i ==> text@[j] < 128,
        decreases text@.len() - i,
    {
        if text[i] >= 128 {
            return false;
        }
        i += 1;
    }
    true
}

/// The account that a member names, if it names one.
pub fn read_party(value: &Value) -> (account: Option<AccountId>)
    ensures
        match account {
            Some(bytes) => party_of(value@) == Some(bytes@),
            None => party_of(value@) is None,
        },
{
    match value {
        Value::Text(chars) => {
            let text = to_low_bytes(chars);
            convert_string_to_accountid(text.as_slice())
        },
        _ => None,
    }
}

/// The number that a member holds, if it holds one.
pub fn read_number(value: &Value) -> (number: Option<u64>)
    ensures
        number == number_of(value@),
{
    match value {
        Value::Number(number) => Some(*number),
        _ => None,
    }
}

/// The token that a member names, if it names one.
pub fn read_token(value: &Value) -> (token: Option<Vec<u8>>)
    ensures
        match token {
            Some(bytes) => token_of(value@) == Some(bytes@) && bytes@.len() <= u32::MAX,
            None => token_of(value@) is None,
        },
{
    match value {
        Value::Text(chars) => {
            let text = to_low_bytes(chars);
            if text_is_ascii(&text) {
                let token = hex_string_to_vec(text.as_slice());
                if token.len() <= 0xffff_ffff {
                    Some(token)
                } else {
                    None
                }
            } else {
                None
            }
        },
        _ => None,
    }
}

/// Reads one more member into an order.
fn read_member(order: Order, lender: &AccountId, borrower: &AccountId, member: &Member, now: u64) -> (parsed:
    Option<Result<Order, Error>>)
    requires
        order@.token.len() <= u32::MAX,
    ensures
        parsed_view(parsed) == with_member(order@, lender@, borrower@, member@, now),
        parsed matches Some(Ok(next)) ==> next@.token.len() <= u32::MAX,
{
    let mut order = order;
    let key = to_low_bytes(&member.key);
    if bytes_equal(key.as_slice(), LENDER.as_slice()) {
        match read_party(&member.value) {
            Some(account) => {
                if bytes_equal(account.as_slice(), lender.as_slice()) {
                    order.lender = *lender;
                    Some(Ok(order))
                } else {
                    Some(Err(Error::NotMatchLender))
                }
            },
            None => None,
        }
    } else if bytes_equal(key.as_slice(), BORROWER.as_slice()) && !is_zero_account(borrower) {
        match read_party(&member.value) {
            Some(account) => {
                if bytes_equal(account.as_slice(), borrower.as_slice()) {
                    order.borrower = *borrower;
                    Some(Ok(order))
                } else {
                    Some(Err(Error::NotMatchBorrower))
                }
            },
            None => None,
        }
    } else if bytes_equal(key.as_slice(), FEE.as_slice()) {
        match read_number(&member.value) {
            Some(fee) => {
                order.fee = fee;
                Some(Ok(order))
            },
            None => None,
        }
    } else if bytes_equal(key.as_slice(), TOKEN.as_slice()) {
        match read_token(&member.value) {
            Some(token) => {
                order.token = token;
                Some(Ok(order))
            },
            None => None,
        }
    } else if bytes_equal(key.as_slice(), DUE_DATE.as_slice()) {
        match read_number(&member.value) {
            Some(due_date) => {
                if due_date > now {
                    order.due_date = due_date;
                    Some(Ok(order))
                } else {
                    Some(Err(Error::TimeOver))
                }
            },
            None => None,
        }
    } else if bytes_equal(key.as_slice(), PAID_TYPE.as_slice()) {
        match read_number(&member.value) {
            Some(paid_type) => {
                if paid_type <= 2 {
                    order.paid_type = paid_type as u8;
                    Some(Ok(order))
                } else {
                    Some(Err(Error::NotPaidType))
                }
            },
            None => None,
        }
    } else {
        Some(Ok(order))
    }
}

/// The order that a payload's members state to a reader who expects the
/// given lender and borrower at the time `now`.
pub fn order_from_members(lender: &AccountId, borrower: &AccountId, members: &Vec<Member>, now: u64) -> (parsed:
    Option<Result<Order, Error>>)
    ensures
        parsed_view(parsed) == with_members(
            OrderView::blank(),
            lender@,
            borrower@,
            member_views(members@),
            now,
        ),
        parsed matches Some(Ok(order)) ==> order@.token.len() <= u32::MAX,
{
    let mut order = Order::new();
    let mut i: usize = 0;
    let ghost all = member_views(members@);
    assert(all.skip(0) =~= all);
    while i < members.len()
        invariant
            i <= members@.len(),
            order@.token.len() <= u32::MAX,
            all == member_views(members@),
            with_members(OrderView::blank(), lender@, borrower@, all, now) == with_members(
                order@,
                lender@,
                borrower@,
                all.skip(i as int),
                now,
            ),
        decreases members@.len() - i,
    {
        assert(all.skip(i as int).skip(1) =~= all.skip(i + 1));
        match read_member(order, lender, borrower, &members[i], now) {
            Some(Ok(next)) => {
                order = next;
            },
            Some(Err(e)) => {
                return Some(Err(e));
            },
            None => {
                return None;
            },
        }
        i += 1;
    }
    Some(Ok(order))
}

/// The account that a payload's members name under a key.
pub fn first_named(members: &Vec<Member>, key: &[u8]) -> (account: AccountId)
    ensures
        account@ == named_party(member_views(members@), key@),
{
    let ghost all = member_views(members@);
    let mut i: usize = 0;
    assert(all.skip(0) =~= all);
    while i < members.len()
        invariant
            i <= members@.len(),
            all == member_views(members@),
            named_party(all, key@) == named_party(all.skip(i as int), key@),
        decreases members@.len() - i,
    {
        assert(all.skip(i as int)[0] == members@[i as int]@);
        assert(all.skip(i as int).skip(1) =~= all.skip(i + 1));
        let name = to_low_bytes(&members[i].key);
        if bytes_equal(name.as_slice(), key) {
            match read_party(&members[i].value) {
                Some(account) => {
                    return account;
                },
                None => {},
            }
        }
        i += 1;
    }
    let nobody: AccountId = [0u8; 32];
    assert(nobody@ =~= zero_account());
    nobody
}

/// Reads a payload as the order of the borrower who made it, at the time `now`.
pub fn parse_for_borrower(borrower: &AccountId, message: &Vec<u8>, now: u64) -> (parsed: Option<
    Result<Order, Error>,
>)
    ensures
        parsed_view(parsed) == parsed_for_borrower(borrower@, message@, now),
        parsed matches Some(Ok(order)) ==> order@.token.len() <= u32::MAX,
{
    match read_members(message.as_slice()) {
        Some(members) => {
            let lender = first_named(&members, LENDER.as_slice());
            order_from_members(&lender, borrower, &members, now)
        },
        None => None,
    }
}

/// Reads a payload as an order, for a reader who expects the given lender
/// and borrower at the time `now`.
pub fn parse_to_order(lender: &AccountId, borrower: &AccountId, message: &Vec<u8>, now: u64) -> (parsed: Option<
    Result<Order, Error>,
>)
    ensures
        parsed_view(parsed) == parsed_order(lender@, borrower@, message@, now),
        parsed matches Some(Ok(order)) ==> order@.token.len() <= u32::MAX,
{
    match read_members(message.as_slice()) {
        Some(members) => order_from_members(lender, borrower, &members, now),
        None => None,
    }
}

} // verus!
