//! The sale market: two half-orders are matched into a sale, and the
//! ownership of the token goes from the seller to the buyer for good.

use vstd::prelude::*;
use crate::bytes::{bytes_equal, copy_bytes, is_zero_account, same_account, zero_account, AccountId};
use crate::nft_currency::model::LedgerView;
use crate::nft_currency::nft::NonFungibleToken;
use crate::renting::parse::{
    first_named, named_party, number_of, party_of, read_number, read_party, read_token, token_of,
};
use crate::renting::payload::{
    low_bytes, member_views, payload_members, read_members, to_low_bytes, Member, MemberView,
};
use crate::renting::rental::{counterparty_half, counterparty_signature};
use crate::renting::signature::verify_signature;
use crate::renting::Payment;
use crate::storage::Table;
use crate::trading::order::{canonical_encoding, OrderView};

pub mod order;

pub use order::Order;

verus! {

/// Why the market refused an operation.
#[derive(Clone, Copy, Debug, PartialEq, Eq, Structural)]
pub enum Error {
    /// The two half-orders name different tokens.
    NotMatchToken,
    /// The seller that a payload names is not the expected one.
    NotMatchSeller,
    /// The buyer that a payload names is not the expected one.
    NotMatchBuyer,
    /// The buyer offers less than the seller asks.
    NotEnoughPrice,
    /// The signature has not the length of one, or does not fit the message and the signer.
    SignatureVerifyError,
    /// One of the half-orders was withdrawn.
    AlreadyCanceled,
    /// The order is not the caller's.
    NotOwnerOfOrder,
    /// The kind of sale is none of those known.
    NotPaidType,
    /// The seller does not own the token.
    CannotTransferOwnership,
    /// The caller is neither the seller nor the buyer.
    CannotLookup,
}

/// What an operation of the market reports.
#[derive(Clone, Debug, PartialEq)]
pub enum Event {
    /// Two half-orders were matched: seller, buyer, token, price.
    MatchOrder(AccountId, AccountId, Vec<u8>, u64),
    /// A half-order was withdrawn: the payload, the caller, and whether the caller is the seller.
    CancelOrder(Vec<u8>, AccountId, bool),
}

/// What an event reports, as plain values.
pub enum EventView {
    MatchOrder(Seq<u8>, Seq<u8>, Seq<u8>, u64),
    CancelOrder(Seq<u8>, Seq<u8>, bool),
}

impl View for Event {
    type V = EventView;

    open spec fn view(&self) -> EventView {
        match self {
            Event::MatchOrder(seller, buyer, token, price) => EventView::MatchOrder(
                seller@,
                buyer@,
                token@,
                *price,
            ),
            Event::CancelOrder(message, caller, is_seller) => EventView::CancelOrder(
                message@,
                caller@,
                *is_seller,
            ),
        }
    }
}

/// What a sale hands to the caller: the payment to make, and the report of the match.
#[derive(Clone, Debug, PartialEq)]
pub struct Sale {
    /// The payment that is due, from the buyer to the seller.
    pub payment: Payment,
    /// The report of the match.
    pub event: Event,
}

/// The key `seller`.
pub const SELLER: [u8; 6] = [115, 101, 108, 108, 101, 114];

/// The key `buyer`.
pub const BUYER: [u8; 5] = [98, 117, 121, 101, 114];

/// The key `price`.
pub const PRICE: [u8; 5] = [112, 114, 105, 99, 101];

/// The key `token`.
pub const TOKEN: [u8; 5] = [116, 111, 107, 101, 110];

/// The key `trading_type`.
pub const TRADING_TYPE: [u8; 12] = [116, 114, 97, 100, 105, 110, 103, 95, 116, 121, 112, 101];

/// What reading a payload comes to: `None` where it cannot be read as an
/// order at all, else the order or the reason for which it is refused.
pub type Parsed = Option<Result<OrderView, Error>>;

/// The order after one more member was read. A key is known by the lowest
/// eight bits of its characters. The seller and the buyer must be the
/// accounts that the reader expects, and the kind of sale must be one of 0,
/// 1 and 2. While no buyer is expected, the key `buyer` is passed over, as
/// every unknown key is.
pub open spec fn with_member(order: OrderView, seller: Seq<u8>, buyer: Seq<u8>, member: MemberView) -> Parsed {
    let key = low_bytes(member.key);
    if key == SELLER@ {
        match party_of(member.value) {
            Some(account) => if account == seller {
                Some(Ok(OrderView { seller, ..order }))
            } else {
                Some(Err(Error::NotMatchSeller))
            },
            None => None,
        }
    } else if key == BUYER@ && buyer != zero_account() {
        match party_of(member.value) {
            Some(account) => if account == buyer {
                Some(Ok(OrderView { buyer, ..order }))
            } else {
                Some(Err(Error::NotMatchBuyer))
            },
            None => None,
        }
    } else if key == PRICE@ {
        match number_of(member.value) {
            Some(price) => Some(Ok(OrderView { price, ..order })),
            None => None,
        }
    } else if key == TOKEN@ {
        match token_of(member.value) {
            Some(token) => Some(Ok(OrderView { token, ..order })),
            None => None,
        }
    } else if key == TRADING_TYPE@ {
        match number_of(member.value) {
            Some(trading_type) => if trading_type <= 2 {
                Some(Ok(OrderView { trading_type: trading_type as u8, ..order }))
            } else {
                Some(Err(Error::NotPaidType))
            },
            None => None,
        }
    } else {
        Some(Ok(order))
    }
}

/// The order after all members were read, one after the other; reading
/// ends at the first member that cannot be read or is refused.
pub open spec fn with_members(order: OrderView, seller: Seq<u8>, buyer: Seq<u8>, members: Seq<MemberView>) -> Parsed
    decreases members.len(),
{
    if members.len() == 0 {
        Some(Ok(order))
    } else {
        match with_member(order, seller, buyer, members[0]) {
            Some(Ok(next)) => with_members(next, seller, buyer, members.skip(1)),
            other => other,
        }
    }
}

/// The order that a payload states to a reader who expects the given
/// seller and buyer. What a member does not state is as in the blank order.
pub open spec fn parsed_order(seller: Seq<u8>, buyer: Seq<u8>, message: Seq<u8>) -> Parsed {
    match payload_members(message) {
        Some(members) => with_members(OrderView::blank(), seller, buyer, members),
        None => None,
    }
}

/// The order that a payload states to the buyer who made it: the buyer is
/// expected, and as the seller whoever the payload names.
pub open spec fn parsed_for_buyer(buyer: Seq<u8>, message: Seq<u8>) -> Parsed {
    match payload_members(message) {
        Some(members) => with_members(OrderView::blank(), named_party(members, SELLER@), buyer, members),
        None => None,
    }
}

/// Two readers of the same members, who expect the same buyer, read the
/// same order where both read one: each `seller` member has then named the
/// seller that either expects.
pub proof fn lemma_readers_agree(
    order: OrderView,
    seller: Seq<u8>,
    other_seller: Seq<u8>,
    buyer: Seq<u8>,
    members: Seq<MemberView>,
    first: OrderView,
    second: OrderView,
)
    requires
        with_members(order, seller, buyer, members) == Some(Ok::<OrderView, Error>(first)),
        with_members(order, other_seller, buyer, members) == Some(Ok::<OrderView, Error>(second)),
    ensures
        first == second,
    decreases members.len(),
{
    if members.len() > 0 {
        let next = with_member(order, seller, buyer, members[0])->Some_0->Ok_0;
        let other = with_member(order, other_seller, buyer, members[0])->Some_0->Ok_0;
        assert(next == other);
        lemma_readers_agree(next, seller, other_seller, buyer, members.skip(1), first, second);
    }
}

/// What came of reading, as plain values.
pub open spec fn parsed_view(parsed: Option<Result<Order, Error>>) -> Parsed {
    match parsed {
        Some(Ok(order)) => Some(Ok(order@)),
        Some(Err(e)) => Some(Err(e)),
        None => None,
    }
}

/// Reads one more member into an order.
fn read_member(order: Order, seller: &AccountId, buyer: &AccountId, member: &Member) -> (parsed: Option<
    Result<Order, Error>,
>)
    requires
        order@.token.len() <= u32::MAX,
    ensures
        parsed_view(parsed) == with_member(order@, seller@, buyer@, member@),
        parsed matches Some(Ok(next)) ==> next@.token.len() <= u32::MAX,
{
    let mut order = order;
    let key = to_low_bytes(&member.key);
    if bytes_equal(key.as_slice(), SELLER.as_slice()) {
        match read_party(&member.value) {
            Some(account) => {
                if same_account(&account, seller) {
                    order.seller = *seller;
                    Some(Ok(order))
                } else {
                    Some(Err(Error::NotMatchSeller))
                }
            },
            None => None,
        }
    } else if bytes_equal(key.as_slice(), BUYER.as_slice()) && !is_zero_account(buyer) {
        match read_party(&member.value) {
            Some(account) => {
                if same_account(&account, buyer) {
                    order.buyer = *buyer;
                    Some(Ok(order))
                } else {
                    Some(Err(Error::NotMatchBuyer))
                }
            },
            None => None,
        }
    } else if bytes_equal(key.as_slice(), PRICE.as_slice()) {
        match read_number(&member.value) {
            Some(price) => {
                order.price = price;
                Some(Ok(order))
            },
            None => None,
        }
    } else if bytes_equal(key.as_slice(), TOKEN.as_slice()) {
        match read_token(&member.value) {
            Some(token) => {
                order.token = token;
                Some(Ok(order))
            },
            None => None,
        }
    } else if bytes_equal(key.as_slice(), TRADING_TYPE.as_slice()) {
        match read_number(&member.value) {
            Some(trading_type) => {
                if trading_type <= 2 {
                    order.trading_type = trading_type as u8;
                    Some(Ok(order))
                } else {
                    Some(Err(Error::NotPaidType))
                }
            },
            None => None,
        }
    } else {
        Some(Ok(order))
    }
}

/// The order that a payload's members state to a reader who expects the
/// given seller and buyer.
pub fn order_from_members(seller: &AccountId, buyer: &AccountId, members: &Vec<Member>) -> (parsed: Option<
    Result<Order, Error>,
>)
    ensures
        parsed_view(parsed) == with_members(OrderView::blank(), seller@, buyer@, member_views(members@)),
        parsed matches Some(Ok(order)) ==> order@.token.len() <= u32::MAX,
{
    let mut order = Order::new();
    let mut i: usize = 0;
    let ghost all = member_views(members@);
    assert(all.skip(0) =~= all);
    while i < members.len()
        invariant
            i <= members@.len(),
            order@.token.len() <= u32::MAX,
            all == member_views(members@),
            with_members(OrderView::blank(), seller@, buyer@, all) == with_members(
                order@,
                seller@,
                buyer@,
                all.skip(i as int),
            ),
        decreases members@.len() - i,
    {
        assert(all.skip(i as int).skip(1) =~= all.skip(i + 1));
        match read_member(order, seller, buyer, &members[i]) {
            Some(Ok(next)) => {
                order = next;
            },
            Some(Err(e)) => {
                return Some(Err(e));
            },
            None => {
                return None;
            },
        }
        i += 1;
    }
    Some(Ok(order))
}

/// Reads a payload as the order of the buyer who made it.
pub fn parse_for_buyer(buyer: &AccountId, message: &Vec<u8>) -> (parsed: Option<Result<Order, Error>>)
    ensures
        parsed_view(parsed) == parsed_for_buyer(buyer@, message@),
        parsed matches Some(Ok(order)) ==> order@.token.len() <= u32::MAX,
{
    match read_members(message.as_slice()) {
        Some(members) => {
            let seller = first_named(&members, SELLER.as_slice());
            order_from_members(&seller, buyer, &members)
        },
        None => None,
    }
}

/// Reads a payload as an order, for a reader who expects the given seller and buyer.
pub fn parse_to_order(seller: &AccountId, buyer: &AccountId, message: &Vec<u8>) -> (parsed: Option<
    Result<Order, Error>,
>)
    ensures
        parsed_view(parsed) == parsed_order(seller@, buyer@, message@),
        parsed matches Some(Ok(order)) ==> order@.token.len() <= u32::MAX,
{
    match read_members(message.as_slice()) {
        Some(members) => order_from_members(seller, buyer, &members),
        None => None,
    }
}

/// What stands against matching two half-orders, if anything does. The
/// halves must name the same token and the same seller, and the buyer,
/// where it is the caller, may not offer less than the seller asks.
pub open spec fn match_refusal(is_seller: bool, left: OrderView, right: OrderView) -> Option<Error> {
    if left.token != right.token {
        Some(Error::NotMatchToken)
    } else if left.seller != right.seller {
        Some(Error::NotMatchSeller)
    } else if !is_seller && left.price > right.price {
        Some(Error::NotEnoughPrice)
    } else {
        None
    }
}

/// Matches two half-orders, and hands out the accepting half or the reason
/// for which they do not match.
pub fn match_trading(is_seller: bool, order_left: &Order, order_right: Order) -> (matched: Result<Order, Error>)
    ensures
        match match_refusal(is_seller, order_left@, order_right@) {
            Some(e) => matched == Err::<Order, Error>(e),
            None => matched matches Ok(order) && order@ == order_right@,
        },
{
    if !bytes_equal(order_left.token.as_slice(), order_right.token.as_slice()) {
        return Err(Error::NotMatchToken);
    }
    if !same_account(&order_left.seller, &order_right.seller) {
        return Err(Error::NotMatchSeller);
    }
    if !is_seller && order_left.price > order_right.price {
        return Err(Error::NotEnoughPrice);
    }
    Ok(order_right)
}

/// The state of a sale market.
pub struct TradingView {
    /// The ledger of the tokens that are sold.
    pub ledger: LedgerView,
    /// The withdrawn half-orders, each under its canonical encoding.
    pub canceled: Map<Seq<u8>, OrderView>,
}

impl TradingView {
    /// Whether a half-order was withdrawn.
    pub open spec fn is_canceled(self, order: OrderView) -> bool {
        self.canceled.contains_key(canonical_encoding(order))
    }

    /// What stands against a sale from two half-orders, if anything does:
    /// a withdrawn half, a rule of matching, or a seller that does not own the token.
    pub open spec fn sale_refusal(self, is_seller: bool, seller: Seq<u8>, left: OrderView, right: OrderView) -> Option<
        Error,
    > {
        if self.is_canceled(left) || self.is_canceled(right) {
            Some(Error::AlreadyCanceled)
        } else if match_refusal(is_seller, left, right) is Some {
            match_refusal(is_seller, left, right)
        } else if !(self.ledger.minted(right.token) && self.ledger.owners[right.token] == seller) {
            Some(Error::CannotTransferOwnership)
        } else {
            None
        }
    }

    /// The market after a sale: the buyer owns the token.
    pub open spec fn after_sale(self, seller: Seq<u8>, buyer: Seq<u8>, order: OrderView) -> TradingView {
        TradingView { ledger: self.ledger.after_transfer_ownership(seller, buyer, order.token), ..self }
    }

    /// The market after a half-order was withdrawn.
    pub open spec fn after_cancel(self, order: OrderView) -> TradingView {
        TradingView { canceled: self.canceled.insert(canonical_encoding(order), order), ..self }
    }

    /// The order that a party withdraws by a payload. The seller's is read
    /// as an offer of the party: with the party expected as the seller and
    /// nobody as the buyer. The buyer's is read as an acceptance of the
    /// party: with the party expected as the buyer, and as the seller whoever
    /// the payload names. What is read must name the party in its role.
    pub open spec fn withdrawn(caller: Seq<u8>, message: Seq<u8>, is_seller: bool) -> Parsed {
        if is_seller {
            match parsed_order(caller, zero_account(), message) {
                Some(Ok(order)) => if order.seller == caller {
                    Some(Ok(order))
                } else {
                    Some(Err(Error::NotOwnerOfOrder))
                },
                other => other,
            }
        } else {
            match parsed_for_buyer(caller, message) {
                Some(Ok(order)) => if order.buyer == caller {
                    Some(Ok(order))
                } else {
                    Some(Err(Error::NotOwnerOfOrder))
                },
                other => other,
            }
        }
    }

    /// The two half-orders that the payloads of a sale state, or the reason
    /// for which one of them is refused; `None` where a payload cannot be
    /// read. The offer is read first, with nobody expected as the buyer; the
    /// acceptance is read only where the offer was read.
    pub open spec fn halves(seller: Seq<u8>, buyer: Seq<u8>, message_left: Seq<u8>, message_right: Seq<u8>) -> Option<
        Result<(OrderView, OrderView), Error>,
    > {
        match parsed_order(seller, zero_account(), message_left) {
            Some(Ok(left)) => match parsed_order(seller, buyer, message_right) {
                Some(Ok(right)) => Some(Ok((left, right))),
                Some(Err(e)) => Some(Err(e)),
                None => None,
            },
            Some(Err(e)) => Some(Err(e)),
            None => None,
        }
    }
}

/// Whether a sale is that of the given parties and order.
pub open spec fn is_sale(sale: Sale, seller: Seq<u8>, buyer: Seq<u8>, order: OrderView) -> bool {
    &&& sale.payment.from@ == buyer
    &&& sale.payment.to@ == seller
    &&& sale.payment.amount == order.price
    &&& sale.event@ == EventView::MatchOrder(seller, buyer, order.token, order.price)
}

/// Whether `sold` and `after` are what a sale from two half-orders makes
/// of a market: the refusal and the market unchanged, or the sale and the
/// market with the token owned by the buyer.
pub open spec fn sold_as(
    market: TradingView,
    is_seller: bool,
    seller: Seq<u8>,
    buyer: Seq<u8>,
    left: OrderView,
    right: OrderView,
    sold: Result<Sale, Error>,
    after: TradingView,
) -> bool {
    match market.sale_refusal(is_seller, seller, left, right) {
        Some(e) => sold == Err::<Sale, Error>(e) && after == market,
        None => sold matches Ok(sale) && is_sale(sale, seller, buyer, right) && after == market.after_sale(
            seller,
            buyer,
            right,
        ),
    }
}

/// Whether `created` and `after` are what the payloads of a sale make of a
/// market, once the signature under them was found good.
pub open spec fn created_as(
    market: TradingView,
    is_seller: bool,
    seller: Seq<u8>,
    buyer: Seq<u8>,
    message_left: Seq<u8>,
    message_right: Seq<u8>,
    created: Result<Sale, Error>,
    after: TradingView,
) -> bool {
    match TradingView::halves(seller, buyer, message_left, message_right) {
        Some(Ok((left, right))) => sold_as(market, is_seller, seller, buyer, left, right, created, after),
        Some(Err(e)) => created == Err::<Sale, Error>(e) && after == market,
        None => false,
    }
}

/// Whether `created` and `after` are what the payloads of a sale make of a
/// market, given whether the signature passed: the refusal of the
/// signature; or nothing, where the payloads cannot be read; or what the
/// payloads make of the market.
pub open spec fn dealt_as(
    market: TradingView,
    verified: bool,
    is_seller: bool,
    seller: Seq<u8>,
    buyer: Seq<u8>,
    message_left: Seq<u8>,
    message_right: Seq<u8>,
    created: Option<Result<Sale, Error>>,
    after: TradingView,
) -> bool {
    if !verified {
        created == Some(Err::<Sale, Error>(Error::SignatureVerifyError)) && after == market
    } else if TradingView::halves(seller, buyer, message_left, message_right) is Some {
        created matches Some(outcome) && created_as(
            market,
            is_seller,
            seller,
            buyer,
            message_left,
            message_right,
            outcome,
            after,
        )
    } else {
        created is None && after == market
    }
}

/// The sale market: the ledger of the tokens and the withdrawn half-orders.
pub struct Pallet<T: NonFungibleToken> {
    tokens: T,
    cancel_orders: Table<Vec<u8>, Order>,
}

impl<T: NonFungibleToken> Pallet<T> {
    /// The market's state.
    pub closed spec fn view(&self) -> TradingView {
        TradingView { ledger: self.tokens.ledger(), canceled: self.cancel_orders@ }
    }

    /// The ledger is well formed, and the table holds each key once.
    pub closed spec fn wf(&self) -> bool {
        self.tokens.wf() && self.cancel_orders.wf()
    }

    /// A market over a ledger, with nothing withdrawn.
    pub fn new(tokens: T) -> (market: Self)
        requires
            tokens.wf(),
        ensures
            market.wf(),
            market@ == (TradingView { ledger: tokens.ledger(), canceled: Map::empty() }),
    {
        Pallet { tokens, cancel_orders: Table::new() }
    }

    /// The ledger of the tokens that are sold.
    pub fn tokens(&self) -> (tokens: &T)
        requires
            self.wf(),
        ensures
            tokens.wf(),
            tokens.ledger() == self@.ledger,
    {
        &self.tokens
    }

    /// Puts another ledger in the place of the market's, and hands the old one out.
    pub fn replace_tokens(&mut self, tokens: T) -> (before: T)
        requires
            old(self).wf(),
            tokens.wf(),
        ensures
            final(self).wf(),
            final(self)@ == (TradingView { ledger: tokens.ledger(), ..old(self)@ }),
            before.wf(),
            before.ledger() == old(self)@.ledger,
    {
        let mut tokens = tokens;
        core::mem::swap(&mut self.tokens, &mut tokens);
        tokens
    }

    /// The withdrawn half-order with the given canonical encoding, if there is one.
    pub fn cancel_orders(&self, encoding: &Vec<u8>) -> (order: Option<Order>)
        requires
            self.wf(),
        ensures
            match order {
                Some(found) => self@.canceled.contains_key(encoding@) && found@ == self@.canceled[encoding@],
                None => !self@.canceled.contains_key(encoding@),
            },
    {
        match self.cancel_orders.get(encoding) {
            Some(order) => Some(order.duplicate()),
            None => None,
        }
    }

    /// Moves the ownership of the token of an order from the seller to the
    /// buyer, and says which payment is due for it.
    pub fn transfer_ownership(&mut self, seller: &AccountId, buyer: &AccountId, order: &Order) -> (due: Result<
        Payment,
        Error,
    >)
        requires
            old(self).wf(),
        ensures
            final(self).wf(),
            match due {
                Ok(payment) => {
                    &&& old(self)@.ledger.minted(order@.token) && old(self)@.ledger.owners[order@.token]
                        == seller@
                    &&& payment.from@ == buyer@ && payment.to@ == seller@ && payment.amount == order@.price
                    &&& final(self)@ == old(self)@.after_sale(seller@, buyer@, order@)
                },
                Err(e) => {
                    &&& e == Error::CannotTransferOwnership
                    &&& !(old(self)@.ledger.minted(order@.token) && old(self)@.ledger.owners[order@.token]
                        == seller@)
                    &&& final(self)@ == old(self)@
                },
            },
    {
        match self.tokens.owner_of_token(&order.token) {
            Ok(owner) => {
                if !same_account(&owner, seller) {
                    return Err(Error::CannotTransferOwnership);
                }
            },
            Err(_) => {
                return Err(Error::CannotTransferOwnership);
            },
        }
        let _ = self.tokens.transfer_ownership(*seller, *buyer, copy_bytes(order.token.as_slice()));
        Ok(Payment { from: *buyer, to: *seller, amount: order.price })
    }

    /// Makes a sale from two half-orders: the offer `order_left` and the
    /// acceptance `order_right`. The caller is the seller or the buyer, as
    /// `is_seller` says.
    pub fn open_trading(
        &mut self,
        is_seller: bool,
        seller: &AccountId,
        buyer: &AccountId,
        order_left: &Order,
        order_right: Order,
    ) -> (sold: Result<Sale, Error>)
        requires
            old(self).wf(),
            order_left@.token.len() <= u32::MAX,
            order_right@.token.len() <= u32::MAX,
        ensures
            final(self).wf(),
            sold_as(old(self)@, is_seller, seller@, buyer@, order_left@, order_right@, sold, final(self)@),
    {
        let left_key = order_left.encode();
        let right_key = order_right.encode();
        if self.cancel_orders.contains_key(&left_key) || self.cancel_orders.contains_key(&right_key) {
            return Err(Error::AlreadyCanceled);
        }
        let fulfilled_order = match match_trading(is_seller, order_left, order_right) {
            Ok(order) => order,
            Err(e) => {
                return Err(e);
            },
        };
        let payment = match self.transfer_ownership(seller, buyer, &fulfilled_order) {
            Ok(payment) => payment,
            Err(e) => {
                return Err(e);
            },
        };
        let price = fulfilled_order.price;
        Ok(Sale { payment, event: Event::MatchOrder(*seller, *buyer, fulfilled_order.token, price) })
    }

    /// Makes a sale from the payloads and signatures of its two halves. The
    /// caller must be the seller or the buyer, and the signature of the other
    /// party under its payload must be good; only then are the payloads
    /// read. `None`, and nothing done, where they cannot be read.
    pub fn create_trading(
        &mut self,
        caller: &AccountId,
        seller: &AccountId,
        buyer: &AccountId,
        message_left: &Vec<u8>,
        signature_left: &Vec<u8>,
        message_right: &Vec<u8>,
        signature_right: &Vec<u8>,
    ) -> (created: Option<Result<Sale, Error>>)
        requires
            old(self).wf(),
        ensures
            final(self).wf(),
            caller@ != seller@ && caller@ != buyer@ ==> created == Some(Err::<Sale, Error>(Error::CannotLookup))
                && final(self)@ == old(self)@,
            (caller@ == seller@ || caller@ == buyer@) && counterparty_signature(
                caller@ == seller@,
                signature_left@,
                signature_right@,
            ).len() != 64 ==> created == Some(Err::<Sale, Error>(Error::SignatureVerifyError)) && final(self)@
                == old(self)@,
            caller@ == seller@ || caller@ == buyer@ ==> dealt_as(
                old(self)@,
                false,
                caller@ == seller@,
                seller@,
                buyer@,
                message_left@,
                message_right@,
                created,
                final(self)@,
            ) || dealt_as(
                old(self)@,
                true,
                caller@ == seller@,
                seller@,
                buyer@,
                message_left@,
                message_right@,
                created,
                final(self)@,
            ),
    {
        let is_seller = same_account(caller, seller);
        if !is_seller && !same_account(caller, buyer) {
            return Some(Err(Error::CannotLookup));
        }
        let (message, signature, signer) = counterparty_half(
            is_seller,
            seller,
            buyer,
            message_left,
            signature_left,
            message_right,
            signature_right,
        );
        let verified = verify_signature(message, signature, signer).is_ok();
        self.deal_with_payloads(verified, is_seller, seller, buyer, message_left, message_right)
    }

    /// Deals with the payloads of a sale, given whether the other party's
    /// signature passed. One that did not makes no sale, whatever the
    /// payloads hold; after one that passed, the payloads are read, and the
    /// sale is made where they can be read.
    pub fn deal_with_payloads(
        &mut self,
        verified: bool,
        is_seller: bool,
        seller: &AccountId,
        buyer: &AccountId,
        message_left: &Vec<u8>,
        message_right: &Vec<u8>,
    ) -> (created: Option<Result<Sale, Error>>)
        requires
            old(self).wf(),
        ensures
            final(self).wf(),
            dealt_as(
                old(self)@,
                verified,
                is_seller,
                seller@,
                buyer@,
                message_left@,
                message_right@,
                created,
                final(self)@,
            ),
    {
        if !verified {
            return Some(Err(Error::SignatureVerifyError));
        }
        let nobody: AccountId = [0u8; 32];
        assert(nobody@ =~= zero_account());
        match parse_to_order(seller, &nobody, message_left) {
            None => {
                return None;
            },
            Some(Err(_)) => {},
            Some(Ok(_)) => {
                if parse_to_order(seller, buyer, message_right).is_none() {
                    return None;
                }
            },
        }
        Some(self.sell_from_payloads(verified, is_seller, seller, buyer, message_left, message_right))
    }

    /// Makes a sale from the payloads of its two halves, given whether the
    /// other party's signature passed: one that did not makes no sale.
    pub fn sell_from_payloads(
        &mut self,
        verified: bool,
        is_seller: bool,
        seller: &AccountId,
        buyer: &AccountId,
        message_left: &Vec<u8>,
        message_right: &Vec<u8>,
    ) -> (created: Result<Sale, Error>)
        requires
            old(self).wf(),
            TradingView::halves(seller@, buyer@, message_left@, message_right@) is Some,
        ensures
            final(self).wf(),
            if verified {
                created_as(
                    old(self)@,
                    is_seller,
                    seller@,
                    buyer@,
                    message_left@,
                    message_right@,
                    created,
                    final(self)@,
                )
            } else {
                created == Err::<Sale, Error>(Error::SignatureVerifyError) && final(self)@ == old(self)@
            },
    {
        if !verified {
            return Err(Error::SignatureVerifyError);
        }
        let nobody: AccountId = [0u8; 32];
        assert(nobody@ =~= zero_account());
        let order_left = match parse_to_order(seller, &nobody, message_left) {
            Some(Ok(order)) => order,
            Some(Err(e)) => {
                return Err(e);
            },
            None => vstd::pervasive::unreached(),
        };
        let order_right = match parse_to_order(seller, buyer, message_right) {
            Some(Ok(order)) => order,
            Some(Err(e)) => {
                return Err(e);
            },
            None => vstd::pervasive::unreached(),
        };
        self.open_trading(is_seller, seller, buyer, &order_left, order_right)
    }

    /// Withdraws the half-order that a payload states, for the party that
    /// made it: the seller where `is_seller` holds, else the buyer. From then
    /// on the half-order makes no sale.
    pub fn cancel_order(&mut self, caller: &AccountId, message: &Vec<u8>, is_seller: bool) -> (canceled: Result<
        Event,
        Error,
    >)
        requires
            old(self).wf(),
            TradingView::withdrawn(caller@, message@, is_seller) is Some,
        ensures
            final(self).wf(),
            match TradingView::withdrawn(caller@, message@, is_seller) {
                Some(Ok(order)) => {
                    &&& canceled matches Ok(event) && event@ == EventView::CancelOrder(message@, caller@, is_seller)
                    &&& final(self)@ == old(self)@.after_cancel(order)
                },
                Some(Err(e)) => canceled == Err::<Event, Error>(e) && final(self)@ == old(self)@,
                None => false,
            },
    {
        let nobody: AccountId = [0u8; 32];
        assert(nobody@ =~= zero_account());
        let parsed = if is_seller {
            parse_to_order(caller, &nobody, message)
        } else {
            parse_for_buyer(caller, message)
        };
        let order = match parsed {
            Some(Ok(order)) => order,
            Some(Err(e)) => {
                return Err(e);
            },
            None => vstd::pervasive::unreached(),
        };
        let owned = if is_seller {
            same_account(caller, &order.seller)
        } else {
            same_account(caller, &order.buyer)
        };
        if !owned {
            return Err(Error::NotOwnerOfOrder);
        }
        let key = order.encode();
        self.cancel_orders.insert(key, order);
        Ok(Event::CancelOrder(copy_bytes(message.as_slice()), *caller, is_seller))
    }

    /// Withdraws the half-order that a payload states, where the payload
    /// can be read; `None`, and nothing done, where it cannot.
    pub fn try_cancel_order(&mut self, caller: &AccountId, message: &Vec<u8>, is_seller: bool) -> (canceled:
        Option<Result<Event, Error>>)
        requires
            old(self).wf(),
        ensures
            final(self).wf(),
            match TradingView::withdrawn(caller@, message@, is_seller) {
                Some(Ok(order)) => {
                    &&& canceled matches Some(Ok(event)) && event@ == EventView::CancelOrder(
                        message@,
                        caller@,
                        is_seller,
                    )
                    &&& final(self)@ == old(self)@.after_cancel(order)
                },
                Some(Err(e)) => canceled == Some(Err::<Event, Error>(e)) && final(self)@ == old(self)@,
                None => canceled is None && final(self)@ == old(self)@,
            },
    {
        let nobody: AccountId = [0u8; 32];
        assert(nobody@ =~= zero_account());
        let parsed = if is_seller {
            parse_to_order(caller, &nobody, message)
        } else {
            parse_for_buyer(caller, message)
        };
        match parsed {
            None => None,
            Some(_) => Some(self.cancel_order(caller, message, is_seller)),
        }
    }
}

/// A half-order that was withdrawn makes no sale, whichever half of the
/// match it is and whatever the other half says.
pub proof fn lemma_withdrawn_never_sells(
    market: TradingView,
    order: OrderView,
    is_seller: bool,
    seller: Seq<u8>,
    left: OrderView,
    right: OrderView,
)
    requires
        left == order || right == order,
    ensures
        market.after_cancel(order).sale_refusal(is_seller, seller, left, right) == Some(Error::AlreadyCanceled),
        market.is_canceled(order) ==> market.after_sale(seller, seller, left).is_canceled(order)
            && market.after_cancel(left).is_canceled(order),
{
}

/// The order that a party withdrew is the half that its payload states
/// when a sale is made with it: the seller's payload as the offer of that
/// seller, the buyer's as the acceptance of that buyer, whoever the other
/// party is.
pub proof fn lemma_withdrawn_is_the_half(
    caller: Seq<u8>,
    message: Seq<u8>,
    is_seller: bool,
    order: OrderView,
    seller: Seq<u8>,
    buyer: Seq<u8>,
    message_left: Seq<u8>,
    message_right: Seq<u8>,
    left: OrderView,
    right: OrderView,
)
    requires
        TradingView::withdrawn(caller, message, is_seller) == Some(Ok::<OrderView, Error>(order)),
        TradingView::halves(seller, buyer, message_left, message_right) == Some(
            Ok::<(OrderView, OrderView), Error>((left, right)),
        ),
        is_seller ==> caller == seller && message_left == message,
        !is_seller ==> caller == buyer && message_right == message,
    ensures
        is_seller ==> left == order,
        !is_seller ==> right == order,
{
    let members = payload_members(message)->Some_0;
    if is_seller {
        lemma_readers_agree(OrderView::blank(), caller, seller, zero_account(), members, order, left);
    } else {
        lemma_readers_agree(
            OrderView::blank(),
            named_party(members, SELLER@),
            seller,
            caller,
            members,
            order,
            right,
        );
    }
}

} // verus!
