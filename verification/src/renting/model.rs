//! The market as mathematics: its state, the rule by which two half-orders
//! match, and what each operation makes of the state.

use vstd::prelude::*;
use crate::nft_currency::model::LedgerView;
use crate::renting::order::{canonical_encoding, OrderView};
use crate::bytes::zero_account;
use crate::renting::parse::{parsed_for_borrower, parsed_order};
use crate::renting::Error;

verus! {

/// The seconds of a day.
pub const SECONDS_PER_DAY: u64 = 86400;

/// The blocks that stand for a day of a rental's term.
pub const DAYS: u64 = 30;

/// The blocks that stand for a week of a rental's term.
pub const WEEKS: u64 = 210;

/// The state of a market.
pub struct MarketView {
    /// The ledger of the tokens that are rented out.
    pub ledger: LedgerView,
    /// The open rentals: borrower and token to the fulfilled order.
    pub rentals: Map<(Seq<u8>, Seq<u8>), OrderView>,
    /// The withdrawn half-orders, each under its canonical encoding.
    pub canceled: Map<Seq<u8>, OrderView>,
    /// Block height to the rentals that end there.
    pub maturity: Map<u64, Seq<OrderView>>,
    /// Block height to the rentals of which an installment is due there.
    pub repayment: Map<u64, Seq<OrderView>>,
}

/// The orders that fall to a height; none where nothing was scheduled there.
pub open spec fn bucket(schedule: Map<u64, Seq<OrderView>>, height: u64) -> Seq<OrderView> {
    if schedule.contains_key(height) {
        schedule[height]
    } else {
        Seq::empty()
    }
}

/// The whole days from `now` to the due date; none where the due date does not lie ahead.
pub open spec fn term_days(due_date: u64, now: u64) -> nat {
    if due_date > now {
        ((due_date - now) / 86400) as nat
    } else {
        0
    }
}

/// What stands against matching two half-orders, if anything does. The
/// halves must name the same token and the same lender; the accepting
/// half may not run longer than the offer; the borrower, where it is the
/// caller, may not offer less than the lender asks; a borrower who already
/// rents the token may not end that rental earlier by a new one; and the
/// term must be longer than a day.
pub open spec fn match_refusal(
    is_lender: bool,
    left: OrderView,
    right: OrderView,
    open: Option<OrderView>,
    now: u64,
) -> Option<Error> {
    if left.token != right.token {
        Some(Error::NotMatchToken)
    } else if left.lender != right.lender {
        Some(Error::NotMatchLender)
    } else if left.due_date < right.due_date {
        Some(Error::TimeOver)
    } else if !is_lender && left.fee > right.fee {
        Some(Error::NotEnoughFee)
    } else if open matches Some(rental) && right.due_date < rental.due_date {
        Some(Error::NotQualified)
    } else if term_days(right.due_date, now) <= 1 {
        Some(Error::TimeOver)
    } else {
        None
    }
}

/// The fee of a fulfilled order: for a payment at once the daily fee times
/// the days of the term, for a payment per day the fee as it is, for a
/// payment per week seven times the fee, whatever the term.
pub open spec fn finalized_fee(order: OrderView, now: u64) -> int {
    if order.paid_type == 0 {
        order.fee * term_days(order.due_date, now)
    } else if order.paid_type == 2 {
        order.fee * 7
    } else {
        order.fee as int
    }
}

/// The fulfilled order that two matching halves make: the accepting half
/// with its fee finalized.
pub open spec fn fulfilled(right: OrderView, now: u64) -> OrderView {
    OrderView { fee: finalized_fee(right, now) as u64, ..right }
}

/// The height at which a rental that starts at `block` ends.
pub open spec fn maturity_height(block: u32, order: OrderView, now: u64) -> int {
    block + term_days(order.due_date, now) * 30
}

/// The blocks between two installments; none for a payment at once.
pub open spec fn installment_step(paid_type: u8) -> Option<int> {
    if paid_type == 1 {
        Some(30)
    } else if paid_type == 2 {
        Some(210)
    } else {
        None
    }
}

/// Whether an installment of a rental that starts at `block` falls to
/// `height`: installments fall to every `step` blocks from the start, up to
/// the end of the term and with it.
pub open spec fn is_installment_height(block: u32, target: int, step: int, height: u64) -> bool {
    &&& block < height <= target
    &&& (height - block) % step == 0
}

/// The repayment schedule after the installments of an order were entered.
pub open spec fn scheduled_repayment(
    repayment: Map<u64, Seq<OrderView>>,
    order: OrderView,
    block: u32,
    now: u64,
) -> Map<u64, Seq<OrderView>> {
    match installment_step(order.paid_type) {
        Some(step) => Map::new(
            |height: u64|
                repayment.contains_key(height) || is_installment_height(
                    block,
                    maturity_height(block, order, now),
                    step,
                    height,
                ),
            |height: u64|
                if is_installment_height(block, maturity_height(block, order, now), step, height) {
                    bucket(repayment, height).push(order)
                } else {
                    repayment[height]
                },
        ),
        None => repayment,
    }
}

impl MarketView {
    /// The market in which nothing happened yet, over a ledger.
    pub open spec fn over(ledger: LedgerView) -> MarketView {
        MarketView {
            ledger,
            rentals: Map::empty(),
            canceled: Map::empty(),
            maturity: Map::empty(),
            repayment: Map::empty(),
        }
    }

    /// The open rental of a borrower on a token, if there is one.
    pub open spec fn rental(self, borrower: Seq<u8>, token: Seq<u8>) -> Option<OrderView> {
        if self.rentals.contains_key((borrower, token)) {
            Some(self.rentals[(borrower, token)])
        } else {
            None
        }
    }

    /// Whether a half-order was withdrawn.
    pub open spec fn is_canceled(self, order: OrderView) -> bool {
        self.canceled.contains_key(canonical_encoding(order))
    }

    /// What stands against opening a rental from two half-orders, if
    /// anything does: a withdrawn half, a rule of matching, or a lender that
    /// neither owns the token nor holds it.
    pub open spec fn open_refusal(
        self,
        is_lender: bool,
        lender: Seq<u8>,
        borrower: Seq<u8>,
        left: OrderView,
        right: OrderView,
        now: u64,
    ) -> Option<Error> {
        if self.is_canceled(left) || self.is_canceled(right) {
            Some(Error::AlreadyCanceled)
        } else if match_refusal(is_lender, left, right, self.rental(borrower, right.token), now) is Some {
            match_refusal(is_lender, left, right, self.rental(borrower, right.token), now)
        } else if !self.ledger.holds(lender, right.token) {
            Some(Error::CannotTransferCustodian)
        } else {
            None
        }
    }

    /// The market after a rental was opened: the borrower holds the token,
    /// the fulfilled order is on record under the borrower and the token,
    /// its installments are scheduled, and so is its end.
    pub open spec fn after_open(self, lender: Seq<u8>, borrower: Seq<u8>, order: OrderView, block: u32, now: u64) -> MarketView {
        let target = maturity_height(block, order, now) as u64;
        MarketView {
            ledger: self.ledger.after_transfer_custodian(borrower, order.token),
            rentals: self.rentals.insert((borrower, order.token), order),
            maturity: self.maturity.insert(target, bucket(self.maturity, target).push(order)),
            repayment: scheduled_repayment(self.repayment, order, block, now),
            ..self
        }
    }

    /// The market after a half-order was withdrawn.
    pub open spec fn after_cancel(self, order: OrderView) -> MarketView {
        MarketView { canceled: self.canceled.insert(canonical_encoding(order), order), ..self }
    }

    /// The market after the token of an order went back to the lender and
    /// the rental came off the record. Where the borrower does not hold the
    /// token any more, custody stays as it is.
    pub open spec fn after_return(self, order: OrderView) -> MarketView {
        MarketView {
            ledger: if self.ledger.holds(order.borrower, order.token) {
                self.ledger.after_transfer_custodian(order.lender, order.token)
            } else {
                self.ledger
            },
            rentals: self.rentals.remove((order.borrower, order.token)),
            ..self
        }
    }

    /// The market after the tokens of all the given orders went back, one after the other.
    pub open spec fn after_returns(self, orders: Seq<OrderView>) -> MarketView
        decreases orders.len(),
    {
        if orders.len() == 0 {
            self
        } else {
            self.after_return(orders[0]).after_returns(orders.skip(1))
        }
    }

    /// The market after the rentals that end at `height` were closed.
    pub open spec fn after_maturity(self, height: u64) -> MarketView {
        let closed = self.after_returns(bucket(self.maturity, height));
        MarketView { maturity: closed.maturity.remove(height), ..closed }
    }

    /// Whether an installment of an order is due: its rental is still open.
    pub open spec fn installment_due(self, order: OrderView) -> bool {
        self.rentals.contains_key((order.borrower, order.token))
    }

    /// The market after an installment was asked for: a paid one leaves
    /// everything as it is, an unpaid one brings the token back to the
    /// lender and closes the rental.
    pub open spec fn after_installment(self, order: OrderView, paid: bool) -> MarketView {
        if paid {
            self
        } else {
            MarketView {
                ledger: self.ledger.after_transfer_custodian(order.lender, order.token),
                rentals: self.rentals.remove((order.borrower, order.token)),
                ..self
            }
        }
    }

    /// The market after the installments that fell to `height` were dealt with.
    pub open spec fn after_repayment(self, height: u64) -> MarketView {
        MarketView { repayment: self.repayment.remove(height), ..self }
    }

    /// The rental that `caller` has on a token; the blank order where it has none.
    pub open spec fn rental_or_blank(self, caller: Seq<u8>, token: Seq<u8>) -> OrderView {
        match self.rental(caller, token) {
            Some(order) => order,
            None => OrderView::blank(),
        }
    }

    /// What stands against `caller` giving a token back before the end of
    /// the term, if anything does: the rental on record must name the caller
    /// as its borrower, and the caller must hold the token in custody.
    pub open spec fn stop_refusal(self, caller: Seq<u8>, token: Seq<u8>) -> Option<Error> {
        let order = self.rental_or_blank(caller, token);
        if order.borrower != caller {
            Some(Error::NotMatchBorrower)
        } else if !self.ledger.custodians.contains_key(order.token) {
            Some(Error::NoneExist)
        } else if self.ledger.custodians[order.token] != caller {
            Some(Error::NotOwner)
        } else {
            None
        }
    }

    /// The order that a party withdraws by a payload. The lender's is read
    /// as an offer of the party: with the party expected as the lender and
    /// nobody as the borrower. The borrower's is read as an acceptance of the
    /// party: with the party expected as the borrower, and as the lender
    /// whoever the payload names. What is read must name the party in its role.
    pub open spec fn withdrawn(caller: Seq<u8>, message: Seq<u8>, is_lender: bool, now: u64) -> Option<
        Result<OrderView, Error>,
    > {
        if is_lender {
            match parsed_order(caller, zero_account(), message, now) {
                Some(Ok(order)) => if order.lender == caller {
                    Some(Ok(order))
                } else {
                    Some(Err(Error::NotOwnerOfOrder))
                },
                other => other,
            }
        } else {
            match parsed_for_borrower(caller, message, now) {
                Some(Ok(order)) => if order.borrower == caller {
                    Some(Ok(order))
                } else {
                    Some(Err(Error::NotOwnerOfOrder))
                },
                other => other,
            }
        }
    }

    /// The two half-orders that the payloads of a rental state, or the
    /// reason for which one of them is refused; `None` where a payload
    /// cannot be read. The offer is read first, with nobody expected as the
    /// borrower; the acceptance is read only where the offer was read.
    pub open spec fn halves(lender: Seq<u8>, borrower: Seq<u8>, message_left: Seq<u8>, message_right: Seq<u8>, now: u64) -> Option<
        Result<(OrderView, OrderView), Error>,
    > {
        match parsed_order(lender, zero_account(), message_left, now) {
            Some(Ok(left)) => match parsed_order(lender, borrower, message_right, now) {
                Some(Ok(right)) => Some(Ok((left, right))),
                Some(Err(e)) => Some(Err(e)),
                None => None,
            },
            Some(Err(e)) => Some(Err(e)),
            None => None,
        }
    }

    /// Whether the fee of the rental that two half-orders make is computed:
    /// neither half is withdrawn, and they match.
    pub open spec fn fee_owed(
        self,
        is_lender: bool,
        borrower: Seq<u8>,
        left: OrderView,
        right: OrderView,
        now: u64,
    ) -> bool {
        &&& !self.is_canceled(left)
        &&& !self.is_canceled(right)
        &&& match_refusal(is_lender, left, right, self.rental(borrower, right.token), now) is None
    }

    /// Whether the payloads of a rental can be dealt with: both can be
    /// read, and where the fee of the rental is computed, it is a `u64`.
    pub open spec fn rental_readable(
        self,
        is_lender: bool,
        lender: Seq<u8>,
        borrower: Seq<u8>,
        message_left: Seq<u8>,
        message_right: Seq<u8>,
        now: u64,
    ) -> bool {
        match Self::halves(lender, borrower, message_left, message_right, now) {
            Some(Ok((left, right))) => self.fee_owed(is_lender, borrower, left, right, now) ==> finalized_fee(
                right,
                now,
            ) <= u64::MAX,
            Some(Err(_)) => true,
            None => false,
        }
    }
}

} // verus!
