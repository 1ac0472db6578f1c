//! The rental market: matching two half-orders into a rental, handing the
//! token over, and bringing it back when the term ends or a payment fails.

use vstd::prelude::*;
use crate::bytes::{bytes_equal, copy_bytes, same_account, AccountId};
use crate::nft_currency::nft::NonFungibleToken;
use crate::renting::model::{
    bucket, finalized_fee, fulfilled, match_refusal, term_days, MarketView, SECONDS_PER_DAY,
};
use crate::renting::order::{copy_orders, lemma_order_views, order_views, OrderView};
use crate::storage::Table;

pub mod convert;
pub mod laws;
pub mod model;
pub mod order;
pub mod parse;
pub mod payload;
pub mod rental;
pub mod schedule;
pub mod signature;

pub use order::Order;

verus! {

/// Why the market refused an operation.
#[derive(Clone, Copy, Debug, PartialEq, Eq, Structural)]
pub enum Error {
    /// The two half-orders name different tokens.
    NotMatchToken,
    /// The lender that a payload names is not the expected one.
    NotMatchLender,
    /// The borrower that a payload or a rental names is not the expected one.
    NotMatchBorrower,
    /// The due date does not lie ahead, lies after the one that the lender
    /// offered, or leaves a term of a day or less.
    TimeOver,
    /// The caller does not hold the token.
    NotOwner,
    /// The borrower offers less than the lender asks.
    NotEnoughFee,
    /// Nothing is recorded under the key that was asked for.
    NoneExist,
    /// The signature has not the length of one, or does not fit the message and the signer.
    SignatureVerifyError,
    /// One of the half-orders was withdrawn.
    AlreadyCanceled,
    /// The order is not the caller's.
    NotOwnerOfOrder,
    /// The borrower already rents the token, for longer than the new term.
    NotQualified,
    /// The way of payment is none of those known.
    NotPaidType,
    /// The lender cannot hand the token over.
    CannotTransferCustodian,
    /// The caller is neither the lender nor the borrower.
    CannotLookup,
}

/// What an operation of the market reports.
#[derive(Clone, Debug, PartialEq)]
pub enum Event {
    /// Two half-orders were matched: lender, borrower, token.
    MatchOrder(AccountId, AccountId, Vec<u8>),
    /// A half-order was withdrawn: the payload, the caller, and whether the caller is the lender.
    CancelOrder(Vec<u8>, AccountId, bool),
    /// A borrower gave a token back before the term ended: token, borrower.
    StopRenting(Vec<u8>, AccountId),
    /// A token went back to its lender: borrower, lender, token.
    ReturnAsset(AccountId, AccountId, Vec<u8>),
    /// An installment was paid: borrower, lender, token.
    RepaymentRental(AccountId, AccountId, Vec<u8>),
}

/// What an event reports, as plain values.
pub enum EventView {
    MatchOrder(Seq<u8>, Seq<u8>, Seq<u8>),
    CancelOrder(Seq<u8>, Seq<u8>, bool),
    StopRenting(Seq<u8>, Seq<u8>),
    ReturnAsset(Seq<u8>, Seq<u8>, Seq<u8>),
    RepaymentRental(Seq<u8>, Seq<u8>, Seq<u8>),
}

impl View for Event {
    type V = EventView;

    open spec fn view(&self) -> EventView {
        match self {
            Event::MatchOrder(lender, borrower, token) => EventView::MatchOrder(lender@, borrower@, token@),
            Event::CancelOrder(message, caller, is_lender) => EventView::CancelOrder(
                message@,
                caller@,
                *is_lender,
            ),
            Event::StopRenting(token, caller) => EventView::StopRenting(token@, caller@),
            Event::ReturnAsset(borrower, lender, token) => EventView::ReturnAsset(borrower@, lender@, token@),
            Event::RepaymentRental(borrower, lender, token) => EventView::RepaymentRental(
                borrower@,
                lender@,
                token@,
            ),
        }
    }
}

/// What a list of events reports.
pub open spec fn event_views(events: Seq<Event>) -> Seq<EventView> {
    Seq::new(events.len(), |i: int| events[i]@)
}

/// A payment that the market asks for: it moves no money itself.
#[derive(Clone, Copy, Debug, PartialEq, Eq)]
pub struct Payment {
    /// The account that pays.
    pub from: AccountId,
    /// The account that is paid.
    pub to: AccountId,
    /// How much.
    pub amount: u64,
}

/// What the opening of a rental hands to the caller: the first payment to
/// make, and the report of the match.
#[derive(Clone, Debug, PartialEq)]
pub struct Handover {
    /// The payment that is due at once, from the borrower to the lender.
    pub payment: Payment,
    /// The report of the match.
    pub event: Event,
}

/// The market: the ledger of the tokens, the open rentals, the withdrawn
/// half-orders, and the schedule of installments and ends of term. A rental
/// starts at a block height of the clock, a `u32`; the heights of the
/// schedule are `u64`, so that no term is too long to be entered.
pub struct Pallet<T: NonFungibleToken> {
    tokens: T,
    borrowers: Table<(AccountId, Vec<u8>), Order>,
    cancel_orders: Table<Vec<u8>, Order>,
    due_block: Table<u64, Vec<Order>>,
    repayment: Table<u64, Vec<Order>>,
}

impl<T: NonFungibleToken> Pallet<T> {
    /// The market's state.
    pub closed spec fn view(&self) -> MarketView {
        MarketView {
            ledger: self.tokens.ledger(),
            rentals: self.borrowers@,
            canceled: self.cancel_orders@,
            maturity: self.due_block@,
            repayment: self.repayment@,
        }
    }

    /// The ledger is well formed, and every table holds each key once.
    pub closed spec fn wf(&self) -> bool {
        &&& self.tokens.wf()
        &&& self.borrowers.wf()
        &&& self.cancel_orders.wf()
        &&& self.due_block.wf()
        &&& self.repayment.wf()
    }

    /// A market over a ledger, with no rental open and nothing scheduled.
    pub fn new(tokens: T) -> (market: Self)
        requires
            tokens.wf(),
        ensures
            market.wf(),
            market@ == MarketView::over(tokens.ledger()),
    {
        Pallet {
            tokens,
            borrowers: Table::new(),
            cancel_orders: Table::new(),
            due_block: Table::new(),
            repayment: Table::new(),
        }
    }

    /// The ledger of the tokens that are rented out.
    pub fn tokens(&self) -> (tokens: &T)
        requires
            self.wf(),
        ensures
            tokens.wf(),
            tokens.ledger() == self@.ledger,
    {
        &self.tokens
    }

    /// Puts another ledger in the place of the market's, and hands the old one out.
    pub fn replace_tokens(&mut self, tokens: T) -> (before: T)
        requires
            old(self).wf(),
            tokens.wf(),
        ensures
            final(self).wf(),
            final(self)@ == (MarketView { ledger: tokens.ledger(), ..old(self)@ }),
            before.wf(),
            before.ledger() == old(self)@.ledger,
    {
        let mut tokens = tokens;
        core::mem::swap(&mut self.tokens, &mut tokens);
        tokens
    }

    /// The open rental of a borrower on a token; the blank order where there is none.
    pub fn borrowers(&self, borrower: &AccountId, token_id: &Vec<u8>) -> (order: Order)
        requires
            self.wf(),
        ensures
            order@ == (match self@.rental(borrower@, token_id@) {
                Some(rental) => rental,
                None => OrderView::blank(),
            }),
    {
        let key = (*borrower, copy_bytes(token_id.as_slice()));
        match self.borrowers.get(&key) {
            Some(order) => order.duplicate(),
            None => Order::new(),
        }
    }

    /// The withdrawn half-order with the given canonical encoding, if there is one.
    pub fn cancel_orders(&self, encoding: &Vec<u8>) -> (order: Option<Order>)
        requires
            self.wf(),
        ensures
            match order {
                Some(found) => self@.canceled.contains_key(encoding@) && found@ == self@.canceled[encoding@],
                None => !self@.canceled.contains_key(encoding@),
            },
    {
        match self.cancel_orders.get(encoding) {
            Some(order) => Some(order.duplicate()),
            None => None,
        }
    }

    /// The rentals that end at a height.
    pub fn due_block(&self, height: u64) -> (orders: Vec<Order>)
        requires
            self.wf(),
        ensures
            order_views(orders@) == bucket(self@.maturity, height),
    {
        match self.due_block.get(&height) {
            Some(orders) => {
                proof {
                    lemma_order_views(orders);
                }
                copy_orders(orders)
            },
            None => {
                let orders: Vec<Order> = Vec::new();
                orders
            },
        }
    }

    /// The rentals of which an installment is due at a height.
    pub fn repayment(&self, height: u64) -> (orders: Vec<Order>)
        requires
            self.wf(),
        ensures
            order_views(orders@) == bucket(self@.repayment, height),
    {
        match self.repayment.get(&height) {
            Some(orders) => {
                proof {
                    lemma_order_views(orders);
                }
                copy_orders(orders)
            },
            None => {
                let orders: Vec<Order> = Vec::new();
                orders
            },
        }
    }

    /// Whether a borrower may take a token until `check_date`: it may
    /// unless it already rents the token for longer.
    pub fn check_borrowers(&self, user: &AccountId, token_id: &Vec<u8>, check_date: u64) -> (allowed: bool)
        requires
            self.wf(),
        ensures
            allowed == !(self@.rental(user@, token_id@) matches Some(rental) && check_date < rental.due_date),
    {
        let key = (*user, copy_bytes(token_id.as_slice()));
        match self.borrowers.get(&key) {
            Some(order) => check_date >= order.due_date,
            None => true,
        }
    }

    /// Matches two half-orders for a borrower, at the time `now`, and
    /// hands out the fulfilled order or the reason for which they do not match.
    pub fn match_order(
        &self,
        borrower: &AccountId,
        is_lender: bool,
        order_left: &Order,
        order_right: Order,
        now: u64,
    ) -> (matched: Result<Order, Error>)
        requires
            self.wf(),
            match_refusal(is_lender, order_left@, order_right@, self@.rental(borrower@, order_right@.token), now)
                is None ==> finalized_fee(order_right@, now) <= u64::MAX,
        ensures
            match match_refusal(
                is_lender,
                order_left@,
                order_right@,
                self@.rental(borrower@, order_right@.token),
                now,
            ) {
                Some(e) => matched == Err::<Order, Error>(e),
                None => matched matches Ok(order) && order@ == fulfilled(order_right@, now),
            },
    {
        let mut order_right = order_right;
        if !bytes_equal(order_left.token.as_slice(), order_right.token.as_slice()) {
            return Err(Error::NotMatchToken);
        }
        if !same_account(&order_left.lender, &order_right.lender) {
            return Err(Error::NotMatchLender);
        }
        if order_left.due_date < order_right.due_date {
            return Err(Error::TimeOver);
        }
        if !is_lender && order_left.fee > order_right.fee {
            return Err(Error::NotEnoughFee);
        }
        if !self.check_borrowers(borrower, &order_right.token, order_right.due_date) {
            return Err(Error::NotQualified);
        }
        let total_renting_days = calculate_day_renting(order_right.due_date, now);
        if total_renting_days <= 1 {
            return Err(Error::TimeOver);
        }
        if order_right.paid_type == 0 {
            order_right.fee = order_right.fee * total_renting_days;
        } else if order_right.paid_type == 2 {
            order_right.fee = order_right.fee * 7;
        }
        Ok(order_right)
    }
}

/// The whole days from `now` to the due date; none where the due date does not lie ahead.
pub fn calculate_day_renting(due_date: u64, now: u64) -> (days: u64)
    ensures
        days == term_days(due_date, now),
{
    if due_date > now {
        (due_date - now) / SECONDS_PER_DAY
    } else {
        0
    }
}

} // verus!
