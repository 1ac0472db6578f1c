//! Opening a rental from two half-orders, withdrawing a half-order, and
//! giving a token back before the term ends.

use vstd::prelude::*;
use crate::bytes::{bytes_equal, copy_bytes, same_account, zero_account, AccountId};
use crate::nft_currency::nft::NonFungibleToken;
use crate::renting::model::{finalized_fee, fulfilled, match_refusal, MarketView};
use crate::renting::order::{Order, OrderView};
use crate::renting::parse::{parse_for_borrower, parse_to_order};
use crate::renting::schedule::push_order;
use crate::renting::signature::verify_signature;
use crate::renting::{calculate_day_renting, Error, Event, EventView, Handover, Pallet, Payment};

verus! {

/// Whether a handover is that of a rental of the given parties and order.
pub open spec fn is_handover(handover: Handover, lender: Seq<u8>, borrower: Seq<u8>, order: OrderView) -> bool {
    &&& handover.payment.from@ == borrower
    &&& handover.payment.to@ == lender
    &&& handover.payment.amount == order.fee
    &&& handover.event@ == EventView::MatchOrder(lender, borrower, order.token)
}

/// Whether `opened` and `after` are what opening a rental from two
/// half-orders makes of a market: the refusal and the market unchanged, or
/// the handover and the market with the rental open.
pub open spec fn opened_as(
    market: MarketView,
    is_lender: bool,
    lender: Seq<u8>,
    borrower: Seq<u8>,
    left: OrderView,
    right: OrderView,
    now: u64,
    block: u32,
    opened: Result<Handover, Error>,
    after: MarketView,
) -> bool {
    match market.open_refusal(is_lender, lender, borrower, left, right, now) {
        Some(e) => opened == Err::<Handover, Error>(e) && after == market,
        None => {
            &&& opened matches Ok(handover) && is_handover(handover, lender, borrower, fulfilled(right, now))
            &&& after == market.after_open(lender, borrower, fulfilled(right, now), block, now)
        },
    }
}

/// Whether `created` and `after` are what the payloads of a rental make of
/// a market, once the signature under them was found good.
pub open spec fn created_as(
    market: MarketView,
    is_lender: bool,
    lender: Seq<u8>,
    borrower: Seq<u8>,
    message_left: Seq<u8>,
    message_right: Seq<u8>,
    now: u64,
    block: u32,
    created: Result<Handover, Error>,
    after: MarketView,
) -> bool {
    match MarketView::halves(lender, borrower, message_left, message_right, now) {
        Some(Ok((left, right))) => opened_as(
            market,
            is_lender,
            lender,
            borrower,
            left,
            right,
            now,
            block,
            created,
            after,
        ),
        Some(Err(e)) => created == Err::<Handover, Error>(e) && after == market,
        None => false,
    }
}

/// The signature that is checked when a rental is opened: the other
/// party's, so the borrower's where the lender calls.
pub open spec fn counterparty_signature(is_lender: bool, signature_left: Seq<u8>, signature_right: Seq<u8>) -> Seq<
    u8,
> {
    if is_lender {
        signature_right
    } else {
        signature_left
    }
}

/// The half that is checked when a rental is opened, with its signature
/// and its signer: the other party's. Where the lender calls, that is the
/// acceptance, signed by the borrower; where the borrower calls, the
/// offer, signed by the lender.
pub fn counterparty_half<'a>(
    is_lender: bool,
    lender: &'a AccountId,
    borrower: &'a AccountId,
    message_left: &'a Vec<u8>,
    signature_left: &'a Vec<u8>,
    message_right: &'a Vec<u8>,
    signature_right: &'a Vec<u8>,
) -> (half: (&'a Vec<u8>, &'a Vec<u8>, &'a AccountId))
    ensures
        half == (if is_lender {
            (message_right, signature_right, borrower)
        } else {
            (message_left, signature_left, lender)
        }),
{
    if is_lender {
        (message_right, signature_right, borrower)
    } else {
        (message_left, signature_left, lender)
    }
}

/// Whether `created` and `after` are what the payloads of a rental make of
/// a market, given what the check of the signature came to: the refusal of
/// the signature; or nothing, where the payloads cannot be dealt with; or
/// what the payloads make of the market.
pub open spec fn dealt_as(
    market: MarketView,
    verified: Result<(), Error>,
    is_lender: bool,
    lender: Seq<u8>,
    borrower: Seq<u8>,
    message_left: Seq<u8>,
    message_right: Seq<u8>,
    now: u64,
    block: u32,
    created: Option<Result<Handover, Error>>,
    after: MarketView,
) -> bool {
    match verified {
        Err(e) => created == Some(Err::<Handover, Error>(e)) && after == market,
        Ok(()) => if market.rental_readable(is_lender, lender, borrower, message_left, message_right, now) {
            created matches Some(outcome) && created_as(
                market,
                is_lender,
                lender,
                borrower,
                message_left,
                message_right,
                now,
                block,
                outcome,
                after,
            )
        } else {
            created is None && after == market
        },
    }
}

impl<T: NonFungibleToken> Pallet<T> {
    /// Hands the token of a fulfilled order from the lender to the
    /// borrower, and says which payment is due for it.
    pub fn transfer_custodian(&mut self, lender: &AccountId, borrower: &AccountId, order: &Order) -> (due: Result<
        Payment,
        Error,
    >)
        requires
            old(self).wf(),
        ensures
            final(self).wf(),
            match due {
                Ok(payment) => {
                    &&& old(self)@.ledger.holds(lender@, order@.token)
                    &&& payment.from@ == borrower@ && payment.to@ == lender@ && payment.amount == order@.fee
                    &&& final(self)@ == (MarketView {
                        ledger: old(self)@.ledger.after_transfer_custodian(borrower@, order@.token),
                        ..old(self)@
                    })
                },
                Err(e) => e == Error::CannotTransferCustodian && !old(self)@.ledger.holds(lender@, order@.token)
                    && final(self)@ == old(self)@,
            },
    {
        match self.tokens.transfer_custodian(*lender, *borrower, copy_bytes(order.token.as_slice())) {
            Ok(()) => Ok(Payment { from: *borrower, to: *lender, amount: order.fee }),
            Err(_) => Err(Error::CannotTransferCustodian),
        }
    }

    /// Opens a rental from two half-orders: the offer `order_left` and the
    /// acceptance `order_right`. The caller is the lender or the borrower,
    /// as `is_lender` says; `now` is the time in seconds, `block` the height.
    pub fn open_rental(
        &mut self,
        is_lender: bool,
        lender: &AccountId,
        borrower: &AccountId,
        order_left: &Order,
        order_right: Order,
        now: u64,
        block: u32,
    ) -> (opened: Result<Handover, Error>)
        requires
            old(self).wf(),
            order_left@.token.len() <= u32::MAX,
            order_right@.token.len() <= u32::MAX,
            old(self)@.fee_owed(is_lender, borrower@, order_left@, order_right@, now) ==> finalized_fee(
                order_right@,
                now,
            ) <= u64::MAX,
        ensures
            final(self).wf(),
            opened_as(
                old(self)@,
                is_lender,
                lender@,
                borrower@,
                order_left@,
                order_right@,
                now,
                block,
                opened,
                final(self)@,
            ),
    {
        let left_key = order_left.encode();
        let right_key = order_right.encode();
        if self.cancel_orders.contains_key(&left_key) || self.cancel_orders.contains_key(&right_key) {
            return Err(Error::AlreadyCanceled);
        }
        let fulfilled_order = match self.match_order(borrower, is_lender, order_left, order_right, now) {
            Ok(order) => order,
            Err(e) => {
                return Err(e);
            },
        };
        let payment = match self.transfer_custodian(lender, borrower, &fulfilled_order) {
            Ok(payment) => payment,
            Err(e) => {
                return Err(e);
            },
        };
        let token_id = copy_bytes(fulfilled_order.token.as_slice());
        self.borrowers.insert((*borrower, copy_bytes(token_id.as_slice())), fulfilled_order.duplicate());
        let due_block = self.get_due_block(&fulfilled_order, now, block);
        push_order(&mut self.due_block, due_block, fulfilled_order);
        Ok(Handover { payment, event: Event::MatchOrder(*lender, *borrower, token_id) })
    }

    /// Opens a rental from the payloads and signatures of its two halves.
    /// The caller must be the lender or the borrower, and the signature of
    /// the other party under its payload must be good; only then are the
    /// payloads read. `None`, and nothing done, where they cannot be dealt with.
    pub fn create_rental(
        &mut self,
        caller: &AccountId,
        lender: &AccountId,
        borrower: &AccountId,
        message_left: &Vec<u8>,
        signature_left: &Vec<u8>,
        message_right: &Vec<u8>,
        signature_right: &Vec<u8>,
        now: u64,
        block: u32,
    ) -> (created: Option<Result<Handover, Error>>)
        requires
            old(self).wf(),
        ensures
            final(self).wf(),
            caller@ != lender@ && caller@ != borrower@ ==> created == Some(
                Err::<Handover, Error>(Error::CannotLookup),
            ) && final(self)@ == old(self)@,
            (caller@ == lender@ || caller@ == borrower@) && counterparty_signature(
                caller@ == lender@,
                signature_left@,
                signature_right@,
            ).len() != 64 ==> created == Some(Err::<Handover, Error>(Error::SignatureVerifyError))
                && final(self)@ == old(self)@,
            caller@ == lender@ || caller@ == borrower@ ==> dealt_as(
                old(self)@,
                Err(Error::SignatureVerifyError),
                caller@ == lender@,
                lender@,
                borrower@,
                message_left@,
                message_right@,
                now,
                block,
                created,
                final(self)@,
            ) || dealt_as(
                old(self)@,
                Ok(()),
                caller@ == lender@,
                lender@,
                borrower@,
                message_left@,
                message_right@,
                now,
                block,
                created,
                final(self)@,
            ),
    {
        let is_lender = same_account(caller, lender);
        if !is_lender && !same_account(caller, borrower) {
            return Some(Err(Error::CannotLookup));
        }
        let (message, signature, signer) = counterparty_half(
            is_lender,
            lender,
            borrower,
            message_left,
            signature_left,
            message_right,
            signature_right,
        );
        let verified = verify_signature(message, signature, signer);
        self.deal_with_payloads(verified, is_lender, lender, borrower, message_left, message_right, now, block)
    }

    /// Deals with the payloads of a rental, given what the check of the
    /// other party's signature came to. A signature that did not pass opens
    /// nothing, whatever the payloads hold; after one that passed, the
    /// payloads are read, and the rental is opened where they can be dealt with.
    pub fn deal_with_payloads(
        &mut self,
        verified: Result<(), Error>,
        is_lender: bool,
        lender: &AccountId,
        borrower: &AccountId,
        message_left: &Vec<u8>,
        message_right: &Vec<u8>,
        now: u64,
        block: u32,
    ) -> (created: Option<Result<Handover, Error>>)
        requires
            old(self).wf(),
        ensures
            final(self).wf(),
            dealt_as(
                old(self)@,
                verified,
                is_lender,
                lender@,
                borrower@,
                message_left@,
                message_right@,
                now,
                block,
                created,
                final(self)@,
            ),
    {
        if let Err(e) = verified {
            return Some(Err(e));
        }
        if !self.payloads_readable(is_lender, lender, borrower, message_left, message_right, now) {
            return None;
        }
        Some(self.open_from_payloads(verified, is_lender, lender, borrower, message_left, message_right, now, block))
    }

    /// Whether the payloads of a rental can be dealt with.
    pub fn payloads_readable(
        &self,
        is_lender: bool,
        lender: &AccountId,
        borrower: &AccountId,
        message_left: &Vec<u8>,
        message_right: &Vec<u8>,
        now: u64,
    ) -> (readable: bool)
        requires
            self.wf(),
        ensures
            readable == self@.rental_readable(is_lender, lender@, borrower@, message_left@, message_right@, now),
    {
        let nobody: AccountId = [0u8; 32];
        assert(nobody@ =~= zero_account());
        let order_left = match parse_to_order(lender, &nobody, message_left, now) {
            None => {
                return false;
            },
            Some(Err(_)) => {
                return true;
            },
            Some(Ok(order)) => order,
        };
        let order_right = match parse_to_order(lender, borrower, message_right, now) {
            None => {
                return false;
            },
            Some(Err(_)) => {
                return true;
            },
            Some(Ok(order)) => order,
        };
        let left_key = order_left.encode();
        let right_key = order_right.encode();
        if self.cancel_orders.contains_key(&left_key) || self.cancel_orders.contains_key(&right_key) {
            return true;
        }
        !self.match_check(borrower, is_lender, &order_left, &order_right, now) || fee_fits(&order_right, now)
    }

    /// Opens a rental from the payloads of its two halves, given what the
    /// check of the other party's signature came to: a signature that did
    /// not pass opens nothing.
    pub fn open_from_payloads(
        &mut self,
        verified: Result<(), Error>,
        is_lender: bool,
        lender: &AccountId,
        borrower: &AccountId,
        message_left: &Vec<u8>,
        message_right: &Vec<u8>,
        now: u64,
        block: u32,
    ) -> (created: Result<Handover, Error>)
        requires
            old(self).wf(),
            old(self)@.rental_readable(is_lender, lender@, borrower@, message_left@, message_right@, now),
        ensures
            final(self).wf(),
            match verified {
                Err(e) => created == Err::<Handover, Error>(e) && final(self)@ == old(self)@,
                Ok(()) => created_as(
                    old(self)@,
                    is_lender,
                    lender@,
                    borrower@,
                    message_left@,
                    message_right@,
                    now,
                    block,
                    created,
                    final(self)@,
                ),
            },
    {
        if let Err(e) = verified {
            return Err(e);
        }
        let nobody: AccountId = [0u8; 32];
        assert(nobody@ =~= zero_account());
        let order_left = match parse_to_order(lender, &nobody, message_left, now) {
            Some(Ok(order)) => order,
            Some(Err(e)) => {
                return Err(e);
            },
            None => vstd::pervasive::unreached(),
        };
        let order_right = match parse_to_order(lender, borrower, message_right, now) {
            Some(Ok(order)) => order,
            Some(Err(e)) => {
                return Err(e);
            },
            None => vstd::pervasive::unreached(),
        };
        self.open_rental(is_lender, lender, borrower, &order_left, order_right, now, block)
    }

    /// Withdraws the half-order that a payload states, for the party that
    /// made it: the lender where `is_lender` holds, else the borrower. From
    /// then on the half-order opens no rental.
    pub fn cancel_order(&mut self, caller: &AccountId, message: &Vec<u8>, is_lender: bool, now: u64) -> (canceled:
        Result<Event, Error>)
        requires
            old(self).wf(),
            MarketView::withdrawn(caller@, message@, is_lender, now) is Some,
        ensures
            final(self).wf(),
            match MarketView::withdrawn(caller@, message@, is_lender, now) {
                Some(Ok(order)) => {
                    &&& canceled matches Ok(event) && event@ == EventView::CancelOrder(message@, caller@, is_lender)
                    &&& final(self)@ == old(self)@.after_cancel(order)
                },
                Some(Err(e)) => canceled == Err::<Event, Error>(e) && final(self)@ == old(self)@,
                None => false,
            },
    {
        let nobody: AccountId = [0u8; 32];
        assert(nobody@ =~= zero_account());
        let parsed = if is_lender {
            parse_to_order(caller, &nobody, message, now)
        } else {
            parse_for_borrower(caller, message, now)
        };
        let order = match parsed {
            Some(Ok(order)) => order,
            Some(Err(e)) => {
                return Err(e);
            },
            None => vstd::pervasive::unreached(),
        };
        let owned = if is_lender {
            same_account(caller, &order.lender)
        } else {
            same_account(caller, &order.borrower)
        };
        if !owned {
            return Err(Error::NotOwnerOfOrder);
        }
        let key = order.encode();
        self.cancel_orders.insert(key, order);
        Ok(Event::CancelOrder(copy_bytes(message.as_slice()), *caller, is_lender))
    }

    /// Withdraws the half-order that a payload states, where the payload
    /// can be read; `None`, and nothing done, where it cannot.
    pub fn try_cancel_order(&mut self, caller: &AccountId, message: &Vec<u8>, is_lender: bool, now: u64) -> (canceled:
        Option<Result<Event, Error>>)
        requires
            old(self).wf(),
        ensures
            final(self).wf(),
            match MarketView::withdrawn(caller@, message@, is_lender, now) {
                Some(Ok(order)) => {
                    &&& canceled matches Some(Ok(event)) && event@ == EventView::CancelOrder(
                        message@,
                        caller@,
                        is_lender,
                    )
                    &&& final(self)@ == old(self)@.after_cancel(order)
                },
                Some(Err(e)) => canceled == Some(Err::<Event, Error>(e)) && final(self)@ == old(self)@,
                None => canceled is None && final(self)@ == old(self)@,
            },
    {
        let nobody: AccountId = [0u8; 32];
        assert(nobody@ =~= zero_account());
        let parsed = if is_lender {
            parse_to_order(caller, &nobody, message, now)
        } else {
            parse_for_borrower(caller, message, now)
        };
        match parsed {
            None => None,
            Some(_) => Some(self.cancel_order(caller, message, is_lender, now)),
        }
    }

    /// Gives a token back to its lender before the term ends, for the
    /// borrower that holds it. The fee is not paid back.
    pub fn stop_renting(&mut self, caller: &AccountId, token_id: &Vec<u8>) -> (stopped: Result<Event, Error>)
        requires
            old(self).wf(),
        ensures
            final(self).wf(),
            match old(self)@.stop_refusal(caller@, token_id@) {
                Some(e) => stopped == Err::<Event, Error>(e) && final(self)@ == old(self)@,
                None => {
                    &&& stopped matches Ok(event) && event@ == EventView::StopRenting(token_id@, caller@)
                    &&& final(self)@ == old(self)@.after_return(old(self)@.rental_or_blank(caller@, token_id@))
                },
            },
    {
        let order = self.borrowers(caller, token_id);
        if !same_account(caller, &order.borrower) {
            return Err(Error::NotMatchBorrower);
        }
        match self.tokens.custodian_of_token(&order.token) {
            Err(_) => {
                return Err(Error::NoneExist);
            },
            Ok(custodian) => {
                if !same_account(caller, &custodian) {
                    return Err(Error::NotOwner);
                }
            },
        }
        proof {
            self.tokens.lemma_wf();
        }
        let _ = self.tokens.transfer_custodian(order.borrower, order.lender, copy_bytes(order.token.as_slice()));
        let _ = self.borrowers.remove(&(order.borrower, copy_bytes(order.token.as_slice())));
        Ok(Event::StopRenting(copy_bytes(token_id.as_slice()), *caller))
    }

    /// Whether two half-orders match for a borrower at the time `now`.
    pub fn match_check(
        &self,
        borrower: &AccountId,
        is_lender: bool,
        order_left: &Order,
        order_right: &Order,
        now: u64,
    ) -> (matches: bool)
        requires
            self.wf(),
        ensures
            matches == (match_refusal(
                is_lender,
                order_left@,
                order_right@,
                self@.rental(borrower@, order_right@.token),
                now,
            ) is None),
    {
        bytes_equal(order_left.token.as_slice(), order_right.token.as_slice()) && same_account(
            &order_left.lender,
            &order_right.lender,
        ) && order_left.due_date >= order_right.due_date && (is_lender || order_left.fee <= order_right.fee)
            && self.check_borrowers(borrower, &order_right.token, order_right.due_date)
            && calculate_day_renting(order_right.due_date, now) > 1
    }
}

/// Whether the fee of the order that an acceptance is fulfilled to is a `u64`.
pub fn fee_fits(order: &Order, now: u64) -> (fits: bool)
    ensures
        fits == (finalized_fee(order@, now) <= u64::MAX),
{
    let days = calculate_day_renting(order.due_date, now);
    if order.paid_type == 0 {
        order.fee.checked_mul(days).is_some()
    } else if order.paid_type == 2 {
        order.fee.checked_mul(7).is_some()
    } else {
        true
    }
}

} // verus!
