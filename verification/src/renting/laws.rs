//! What holds of the market whatever happens on it.

use vstd::prelude::*;
use crate::bytes::zero_account;
use crate::nft_currency::model::{lemma_transfer_custodian, LedgerView};
use crate::renting::model::{bucket, finalized_fee, match_refusal, term_days, MarketView};
use crate::renting::order::OrderView;
use crate::renting::parse::{lemma_readers_agree, named_party, LENDER};
use crate::renting::payload::payload_members;
use crate::renting::rental::created_as;
use crate::renting::Handover;
use crate::renting::Error;

verus! {

/// A lender that calls sets no floor under the fee, a borrower that calls
/// must meet the lender's: two halves that match but for the fee, the
/// offer asking more than the acceptance gives, match for the lender and
/// are refused to the borrower as `NotEnoughFee`.
pub proof fn lemma_fee_floor_binds_borrower_only(left: OrderView, right: OrderView, open: Option<OrderView>, now: u64)
    requires
        left.fee > right.fee,
        match_refusal(true, left, right, open, now) is None,
    ensures
        match_refusal(false, left, right, open, now) == Some(Error::NotEnoughFee),
{
}

/// Where the offer asks no more than the acceptance gives, the caller's
/// role makes no difference to the match.
pub proof fn lemma_met_fee_matches_for_both(left: OrderView, right: OrderView, open: Option<OrderView>, now: u64)
    requires
        left.fee <= right.fee,
    ensures
        match_refusal(false, left, right, open, now) == match_refusal(true, left, right, open, now),
{
}

/// The fee of a rental paid per week is seven times the quoted fee,
/// however long the term; that of a rental paid per day is the quoted fee;
/// that of a rental paid at once is the quoted fee times the days of the term.
pub proof fn lemma_finalized_fee(order: OrderView, now: u64)
    ensures
        order.paid_type == 2 ==> finalized_fee(order, now) == order.fee * 7,
        order.paid_type == 1 ==> finalized_fee(order, now) == order.fee,
        order.paid_type == 0 ==> finalized_fee(order, now) == order.fee * term_days(order.due_date, now),
{
}

/// A half-order that was withdrawn opens no rental, whichever half of the
/// match it is and whatever the other half says.
pub proof fn lemma_withdrawn_never_opens(
    market: MarketView,
    order: OrderView,
    is_lender: bool,
    lender: Seq<u8>,
    borrower: Seq<u8>,
    left: OrderView,
    right: OrderView,
    now: u64,
)
    requires
        left == order || right == order,
    ensures
        market.after_cancel(order).open_refusal(is_lender, lender, borrower, left, right, now) == Some(
            Error::AlreadyCanceled,
        ),
{
}

/// Returning tokens withdraws nothing and takes no withdrawal back.
pub proof fn lemma_returns_keep_canceled(market: MarketView, orders: Seq<OrderView>)
    ensures
        market.after_returns(orders).canceled == market.canceled,
        market.after_returns(orders).repayment == market.repayment,
        market.after_returns(orders).maturity == market.maturity,
    decreases orders.len(),
{
    if orders.len() > 0 {
        lemma_returns_keep_canceled(market.after_return(orders[0]), orders.skip(1));
    }
}

/// A withdrawal is for good: whatever the market does next, opening a
/// rental, withdrawing another half-order, closing the rentals of a height,
/// settling an installment, the withdrawn half-order stays withdrawn.
pub proof fn lemma_withdrawn_stays(
    market: MarketView,
    order: OrderView,
    lender: Seq<u8>,
    borrower: Seq<u8>,
    other: OrderView,
    block: u32,
    height: u64,
    now: u64,
    paid: bool,
)
    requires
        market.is_canceled(order),
    ensures
        market.after_open(lender, borrower, other, block, now).is_canceled(order),
        market.after_cancel(other).is_canceled(order),
        market.after_return(other).is_canceled(order),
        market.after_maturity(height).is_canceled(order),
        market.after_installment(other, paid).is_canceled(order),
        market.after_repayment(height).is_canceled(order),
{
    lemma_returns_keep_canceled(market, bucket(market.maturity, height));
}

/// Closing the rentals of a height a second time changes nothing.
pub proof fn lemma_maturity_once(market: MarketView, height: u64)
    ensures
        market.after_maturity(height).after_maturity(height) == market.after_maturity(height),
{
    let once = market.after_maturity(height);
    lemma_returns_keep_canceled(market, bucket(market.maturity, height));
    assert(once.maturity.remove(height) =~= once.maturity);
}

/// At the end of the term of a rental whose borrower still holds the
/// token, the token is back with the lender, without a custody record
/// where the lender owns it, and the rental is off the record.
pub proof fn lemma_return_closes(market: MarketView, order: OrderView)
    requires
        market.ledger.wf(),
        market.ledger.holds(order.borrower, order.token),
    ensures
        !market.after_return(order).installment_due(order),
        market.after_return(order).rental(order.borrower, order.token) is None,
        market.ledger.owners[order.token] == order.lender ==> !market.after_return(
            order,
        ).ledger.custodians.contains_key(order.token),
        market.ledger.owners[order.token] != order.lender ==> market.after_return(
            order,
        ).ledger.custodians[order.token] == order.lender,
        market.after_return(order).ledger.holds(order.lender, order.token),
{
    lemma_transfer_custodian(market.ledger, order.lender, order.token);
}

/// A missed installment ends the rental at once: the token is back with
/// the lender, and no further installment of the order is due.
pub proof fn lemma_missed_installment_closes(market: MarketView, order: OrderView)
    requires
        market.ledger.wf(),
        market.ledger.minted(order.token),
    ensures
        !market.after_installment(order, false).installment_due(order),
        market.after_installment(order, false).ledger.holds(order.lender, order.token),
        market.ledger.owners[order.token] == order.lender ==> !market.after_installment(
            order,
            false,
        ).ledger.custodians.contains_key(order.token),
        market.after_installment(order, true) == market,
{
    lemma_transfer_custodian(market.ledger, order.lender, order.token);
}

/// A borrower that rents a token cannot take it again for a term that
/// ends before the one that runs; for a term that ends with it or later,
/// the running rental stands against nothing.
pub proof fn lemma_no_earlier_end(is_lender: bool, left: OrderView, right: OrderView, running: OrderView, now: u64)
    ensures
        right.due_date < running.due_date ==> match_refusal(is_lender, left, right, Some(running), now) is Some,
        right.due_date >= running.due_date ==> match_refusal(is_lender, left, right, Some(running), now)
            == match_refusal(is_lender, left, right, None, now),
{
}

/// A rental that was opened is on record under its borrower and token,
/// ends at the height that its term gives, and has the borrower hold the
/// token unless the borrower owns it.
pub proof fn lemma_open_records(market: MarketView, lender: Seq<u8>, borrower: Seq<u8>, order: OrderView, block: u32, now: u64)
    requires
        market.ledger.wf(),
        market.ledger.minted(order.token),
        block + term_days(order.due_date, now) * 30 <= u64::MAX,
    ensures
        market.after_open(lender, borrower, order, block, now).rental(borrower, order.token) == Some(order),
        bucket(
            market.after_open(lender, borrower, order, block, now).maturity,
            (block + term_days(order.due_date, now) * 30) as u64,
        ).last() == order,
        market.after_open(lender, borrower, order, block, now).ledger.holds(borrower, order.token),
{
    lemma_transfer_custodian(market.ledger, borrower, order.token);
}

/// The order that a party withdrew is the half that its payload states
/// when a rental is opened with it: the lender's payload as the offer of
/// that lender, the borrower's as the acceptance of that borrower, whoever
/// the other party is and whenever the rental is opened.
pub proof fn lemma_withdrawn_is_the_half(
    caller: Seq<u8>,
    message: Seq<u8>,
    is_lender: bool,
    then: u64,
    order: OrderView,
    lender: Seq<u8>,
    borrower: Seq<u8>,
    message_left: Seq<u8>,
    message_right: Seq<u8>,
    now: u64,
    left: OrderView,
    right: OrderView,
)
    requires
        MarketView::withdrawn(caller, message, is_lender, then) == Some(Ok::<OrderView, Error>(order)),
        MarketView::halves(lender, borrower, message_left, message_right, now) == Some(
            Ok::<(OrderView, OrderView), Error>((left, right)),
        ),
        is_lender ==> caller == lender && message_left == message,
        !is_lender ==> caller == borrower && message_right == message,
    ensures
        is_lender ==> left == order,
        !is_lender ==> right == order,
{
    let members = payload_members(message)->Some_0;
    if is_lender {
        lemma_readers_agree(
            OrderView::blank(),
            caller,
            lender,
            zero_account(),
            members,
            then,
            now,
            order,
            left,
        );
    } else {
        lemma_readers_agree(
            OrderView::blank(),
            named_party(members, LENDER@),
            lender,
            caller,
            members,
            then,
            now,
            order,
            right,
        );
    }
}

/// A payload that its party withdrew opens no rental when it is handed in
/// again, as it is, at any later time and by either party: the call is
/// refused and the market stays as it is.
pub proof fn lemma_withdrawn_payload_never_opens(
    market: MarketView,
    caller: Seq<u8>,
    message: Seq<u8>,
    is_lender: bool,
    then: u64,
    order: OrderView,
    lender_calls: bool,
    lender: Seq<u8>,
    borrower: Seq<u8>,
    message_left: Seq<u8>,
    message_right: Seq<u8>,
    now: u64,
    block: u32,
    created: Result<Handover, Error>,
    after: MarketView,
)
    requires
        MarketView::withdrawn(caller, message, is_lender, then) == Some(Ok::<OrderView, Error>(order)),
        market.is_canceled(order),
        is_lender ==> caller == lender && message_left == message,
        !is_lender ==> caller == borrower && message_right == message,
        created_as(
            market,
            lender_calls,
            lender,
            borrower,
            message_left,
            message_right,
            now,
            block,
            created,
            after,
        ),
    ensures
        created is Err,
        after == market,
        MarketView::halves(lender, borrower, message_left, message_right, now) matches Some(Ok(_)) ==> created
            == Err::<Handover, Error>(Error::AlreadyCanceled),
{
    match MarketView::halves(lender, borrower, message_left, message_right, now) {
        Some(Ok((left, right))) => {
            lemma_withdrawn_is_the_half(
                caller,
                message,
                is_lender,
                then,
                order,
                lender,
                borrower,
                message_left,
                message_right,
                now,
                left,
                right,
            );
        },
        _ => {},
    }
}

/// What returning the tokens of some orders comes to, whatever the orders
/// and however many of them name one token: the rental of each is off the
/// record, every other rental is on record as before, of the ledger only
/// custody has changed, and that only of the tokens that the orders name.
pub proof fn lemma_returns_close_all(market: MarketView, orders: Seq<OrderView>)
    requires
        market.ledger.wf(),
    ensures
        market.after_returns(orders).ledger.wf(),
        forall|i: int|
            0 <= i < orders.len() ==> !market.after_returns(orders).rentals.contains_key(
                (#[trigger] orders[i].borrower, orders[i].token),
            ),
        forall|key: (Seq<u8>, Seq<u8>)| #[trigger]
            market.after_returns(orders).rentals.contains_key(key) ==> market.rentals.contains_key(key)
                && market.after_returns(orders).rentals[key] == market.rentals[key],
        forall|key: (Seq<u8>, Seq<u8>)|
            #[trigger] market.rentals.contains_key(key) && (forall|i: int|
                0 <= i < orders.len() ==> (#[trigger] orders[i].borrower, orders[i].token) != key)
                ==> market.after_returns(orders).rentals.contains_key(key),
        market.after_returns(orders).ledger == (LedgerView {
            custodians: market.after_returns(orders).ledger.custodians,
            ..market.ledger
        }),
        forall|token: Seq<u8>|
            (forall|i: int| 0 <= i < orders.len() ==> (#[trigger] orders[i]).token != token) ==> {
                &&& market.after_returns(orders).ledger.custodians.contains_key(token)
                    == #[trigger] market.ledger.custodians.contains_key(token)
                &&& market.ledger.custodians.contains_key(token) ==> market.after_returns(
                    orders,
                ).ledger.custodians[token] == market.ledger.custodians[token]
            },
    decreases orders.len(),
{
    if orders.len() > 0 {
        let first = orders[0];
        let next = market.after_return(first);
        let rest = orders.skip(1);
        if market.ledger.holds(first.borrower, first.token) {
            lemma_transfer_custodian(market.ledger, first.lender, first.token);
        }
        lemma_returns_close_all(next, rest);
        let after = market.after_returns(orders);
        assert forall|i: int| 0 <= i < orders.len() implies !after.rentals.contains_key(
            (#[trigger] orders[i].borrower, orders[i].token),
        ) by {
            if i > 0 {
                assert(rest[i - 1] == orders[i]);
            }
        }
        assert forall|key: (Seq<u8>, Seq<u8>)|
            #[trigger] market.rentals.contains_key(key) && (forall|i: int|
                0 <= i < orders.len() ==> (#[trigger] orders[i].borrower, orders[i].token)
                    != key) implies after.rentals.contains_key(key) by {
            assert((orders[0].borrower, orders[0].token) != key);
            assert forall|i: int| 0 <= i < rest.len() implies (#[trigger] rest[i].borrower, rest[i].token)
                != key by {
                assert(rest[i] == orders[i + 1]);
            }
            assert(next.rentals.contains_key(key));
        }
        assert forall|token: Seq<u8>|
            (forall|i: int| 0 <= i < orders.len() ==> (#[trigger] orders[i]).token != token) implies {
                &&& after.ledger.custodians.contains_key(token) == #[trigger] market.ledger.custodians.contains_key(
                    token,
                )
                &&& market.ledger.custodians.contains_key(token) ==> after.ledger.custodians[token]
                    == market.ledger.custodians[token]
            } by {
            assert(orders[0].token != token);
            assert forall|i: int| 0 <= i < rest.len() implies (#[trigger] rest[i]).token != token by {
                assert(rest[i] == orders[i + 1]);
            }
            assert(next.ledger.custodians.contains_key(token) == market.ledger.custodians.contains_key(token));
        }
    }
}

/// Where no two of the orders name one token, each order whose borrower
/// held its token has the token back with its lender: without a custody
/// record where the lender owns it, in the lender's custody where not.
pub proof fn lemma_returns_hand_back(market: MarketView, orders: Seq<OrderView>, at: int)
    requires
        market.ledger.wf(),
        0 <= at < orders.len(),
        forall|i: int, j: int| 0 <= i < j < orders.len() ==> (#[trigger] orders[i]).token != (#[trigger] orders[j]).token,
        market.ledger.holds(orders[at].borrower, orders[at].token),
    ensures
        market.after_returns(orders).ledger.holds(orders[at].lender, orders[at].token),
        market.ledger.owners[orders[at].token] == orders[at].lender ==> !market.after_returns(
            orders,
        ).ledger.custodians.contains_key(orders[at].token),
        market.ledger.owners[orders[at].token] != orders[at].lender ==> market.after_returns(
            orders,
        ).ledger.custodians[orders[at].token] == orders[at].lender,
    decreases orders.len(),
{
    let first = orders[0];
    let next = market.after_return(first);
    let rest = orders.skip(1);
    if market.ledger.holds(first.borrower, first.token) {
        lemma_transfer_custodian(market.ledger, first.lender, first.token);
    }
    assert forall|i: int, j: int| 0 <= i < j < rest.len() implies (#[trigger] rest[i]).token != (
    #[trigger] rest[j]).token by {
        assert(rest[i] == orders[i + 1]);
        assert(rest[j] == orders[j + 1]);
    }
    if at == 0 {
        let token = first.token;
        assert(next.ledger.holds(first.lender, token));
        assert forall|i: int| 0 <= i < rest.len() implies (#[trigger] rest[i]).token != token by {
            assert(rest[i] == orders[i + 1]);
        }
        lemma_returns_close_all(next, rest);
        let after = next.after_returns(rest);
        assert(after.ledger.custodians.contains_key(token) == next.ledger.custodians.contains_key(token));
        assert(after.ledger.owners == next.ledger.owners);
    } else {
        assert(rest[at - 1] == orders[at]);
        assert(orders[0].token != orders[at].token);
        assert(next.ledger.holds(orders[at].borrower, orders[at].token));
        lemma_returns_hand_back(next, rest, at - 1);
    }
}

/// What closing the rentals of a height comes to, whatever falls to the
/// height: the rental of each order of the height is off the record, the
/// height's entry is off the schedule, every other rental and entry, the
/// installments and the withdrawals are as before, and of the ledger only
/// the custody of the tokens that the orders name has changed.
pub proof fn lemma_maturity_closes_all(market: MarketView, height: u64)
    requires
        market.ledger.wf(),
    ensures
        market.after_maturity(height).ledger.wf(),
        forall|i: int|
            0 <= i < bucket(market.maturity, height).len() ==> market.after_maturity(height).rental(
                (#[trigger] bucket(market.maturity, height)[i]).borrower,
                bucket(market.maturity, height)[i].token,
            ) is None,
        forall|key: (Seq<u8>, Seq<u8>)| #[trigger]
            market.after_maturity(height).rentals.contains_key(key) ==> market.rentals.contains_key(key)
                && market.after_maturity(height).rentals[key] == market.rentals[key],
        market.after_maturity(height).maturity == market.maturity.remove(height),
        market.after_maturity(height).repayment == market.repayment,
        market.after_maturity(height).canceled == market.canceled,
        market.after_maturity(height).ledger.owners == market.ledger.owners,
        market.after_maturity(height).ledger.owned == market.ledger.owned,
        market.after_maturity(height).ledger.total_supply == market.ledger.total_supply,
{
    let orders = bucket(market.maturity, height);
    lemma_returns_close_all(market, orders);
    lemma_returns_keep_canceled(market, orders);
}

} // verus!
