//! The schedule: which rentals end at a block height, which installments
//! fall to it, and what happens when the height is reached.

use vstd::prelude::*;
use vstd::arithmetic::div_mod::{lemma_fundamental_div_mod, lemma_mod_multiples_vanish};
use crate::bytes::{copy_bytes, same_account, AccountId};
use crate::nft_currency::nft::NonFungibleToken;
use crate::renting::model::{
    bucket, is_installment_height, maturity_height, scheduled_repayment, MarketView, DAYS, WEEKS,
};
use crate::renting::order::{lemma_order_views, order_views, Order, OrderView};
use crate::renting::{calculate_day_renting, event_views, Event, EventView, Pallet, Payment};
use crate::storage::Table;

verus! {

/// Appends an order to the orders that fall to a height.
pub fn push_order(schedule: &mut Table<u64, Vec<Order>>, height: u64, order: Order)
    requires
        old(schedule).wf(),
    ensures
        final(schedule).wf(),
        final(schedule)@ == old(schedule)@.insert(height, bucket(old(schedule)@, height).push(order@)),
{
    let mut orders = match schedule.remove(&height) {
        Some(orders) => orders,
        None => Vec::new(),
    };
    proof {
        lemma_order_views(&orders);
        assert(orders.deep_view() =~= bucket(old(schedule)@, height));
    }
    let ghost before = orders@;
    orders.push(order);
    proof {
        lemma_order_views(&orders);
        assert(order_views(orders@) =~= order_views(before).push(order@));
    }
    schedule.insert(height, orders);
}

/// The repayment schedule after those installments of an order were
/// entered that fall to a height of at most `reached`.
pub open spec fn entered_repayment(
    repayment: Map<u64, Seq<OrderView>>,
    order: OrderView,
    block: u32,
    target: int,
    step: int,
    reached: int,
) -> Map<u64, Seq<OrderView>> {
    Map::new(
        |height: u64|
            repayment.contains_key(height) || (height <= reached && is_installment_height(
                block,
                target,
                step,
                height,
            )),
        |height: u64|
            if height <= reached && is_installment_height(block, target, step, height) {
                bucket(repayment, height).push(order)
            } else {
                repayment[height]
            },
    )
}

/// Two offsets that are both a whole number of steps, one below the
/// other, are at least a step apart.
proof fn lemma_steps_apart(low: int, high: int, step: int)
    requires
        step > 0,
        low % step == 0,
        high % step == 0,
        low < high,
    ensures
        high - low >= step,
{
    lemma_fundamental_div_mod(low, step);
    lemma_fundamental_div_mod(high, step);
    let below = low / step;
    let above = high / step;
    assert(above > below) by (nonlinear_arith)
        requires
            step > 0,
            step * below < step * above,
    ;
    assert(step * above - step * below >= step) by (nonlinear_arith)
        requires
            step > 0,
            above - below >= 1,
    ;
}

/// A step on from a whole number of steps is a whole number of steps.
proof fn lemma_step_on(offset: int, step: int)
    requires
        step > 0,
        offset % step == 0,
    ensures
        (offset + step) % step == 0,
{
    lemma_mod_multiples_vanish(1, offset, step);
}

/// The next installment: a step on from the last height that was
/// reached, where that is no later than the end of the term. Entering it
/// there takes the schedule from the one height to the next.
proof fn lemma_enter_next(
    repayment: Map<u64, Seq<OrderView>>,
    order: OrderView,
    block: u32,
    target: int,
    step: int,
    reached: int,
    next: u64,
)
    requires
        step > 0,
        block <= reached,
        (reached - block) % step == 0,
        next == reached + step,
        next <= target,
    ensures
        (next - block) % step == 0,
        is_installment_height(block, target, step, next),
        entered_repayment(repayment, order, block, target, step, reached).insert(
            next,
            bucket(entered_repayment(repayment, order, block, target, step, reached), next).push(order),
        ) == entered_repayment(repayment, order, block, target, step, next as int),
{
    lemma_step_on(reached - block, step);
    assert forall|height: u64| reached < height < next implies !is_installment_height(
        block,
        target,
        step,
        height,
    ) by {
        if (height - block) % step == 0 {
            lemma_steps_apart(reached - block, height - block, step);
        }
    }
}

/// Once the next step would pass the end of the term, every installment is entered.
proof fn lemma_entered_all(block: u32, target: int, step: int, reached: int)
    requires
        step > 0,
        block <= reached,
        (reached - block) % step == 0,
        target < reached + step,
    ensures
        forall|height: u64| is_installment_height(block, target, step, height) ==> height <= reached,
{
    assert forall|height: u64| is_installment_height(block, target, step, height) implies height
        <= reached by {
        if height > reached {
            lemma_steps_apart(reached - block, height - block, step);
        }
    }
}

/// The reports of the return of each of the given orders' tokens.
pub open spec fn return_events(orders: Seq<OrderView>) -> Seq<EventView> {
    Seq::new(
        orders.len(),
        |i: int| EventView::ReturnAsset(orders[i].borrower, orders[i].lender, orders[i].token),
    )
}

/// Returning tokens leaves the schedule of ends of term as it is.
pub proof fn lemma_returns_keep_maturity(
    market: MarketView,
    orders: Seq<OrderView>,
    maturity: Map<u64, Seq<OrderView>>,
)
    ensures
        (MarketView { maturity, ..market }).after_returns(orders) == (MarketView {
            maturity,
            ..market.after_returns(orders)
        }),
    decreases orders.len(),
{
    if orders.len() > 0 {
        lemma_returns_keep_maturity(market.after_return(orders[0]), orders.skip(1), maturity);
    }
}

impl<T: NonFungibleToken> Pallet<T> {
    /// Enters the installments of a rental that starts at `block` into the
    /// repayment schedule, one for each full step up to the end of the term,
    /// and hands out the height at which the rental ends.
    pub fn get_due_block(&mut self, order: &Order, now: u64, block: u32) -> (target: u64)
        requires
            old(self).wf(),
        ensures
            final(self).wf(),
            target == maturity_height(block, order@, now),
            final(self)@ == (MarketView {
                repayment: scheduled_repayment(old(self)@.repayment, order@, block, now),
                ..old(self)@
            }),
    {
        let total_renting_days = calculate_day_renting(order.due_date, now);
        let start: u64 = block as u64;
        let target: u64 = start + total_renting_days * DAYS;
        let step: u64 = if order.paid_type == 1 {
            DAYS
        } else if order.paid_type == 2 {
            WEEKS
        } else {
            return target;
        };
        let mut current: u64 = start;
        let ghost before = self@.repayment;
        assert(self@.repayment =~= entered_repayment(before, order@, block, target as int, step as int, start as int));
        while current + step <= target
            invariant
                self.wf(),
                step == 30 || step == 210,
                start == block,
                target <= 0xffff_ffffint + 0xffff_ffff_ffff_ffffint / 86400 * 30,
                start <= current <= target,
                (current - start) % (step as int) == 0,
                self@ == (MarketView {
                    repayment: entered_repayment(before, order@, block, target as int, step as int, current as int),
                    ..old(self)@
                }),
            decreases target - current,
        {
            proof {
                lemma_enter_next(before, order@, block, target as int, step as int, current as int, (current + step) as u64);
            }
            current += step;
            push_order(&mut self.repayment, current, order.duplicate());
        }
        proof {
            lemma_entered_all(block, target as int, step as int, current as int);
            assert(self@.repayment =~= scheduled_repayment(before, order@, block, now));
        }
        target
    }

    /// Whether an account owns a token or holds it.
    pub fn holds_token(&self, account: &AccountId, token_id: &Vec<u8>) -> (holds: bool)
        requires
            self.wf(),
        ensures
            holds == self@.ledger.holds(account@, token_id@),
    {
        match self.tokens.owner_of_token(token_id) {
            Err(_) => false,
            Ok(owner) => {
                if same_account(&owner, account) {
                    true
                } else {
                    match self.tokens.custodian_of_token(token_id) {
                        Ok(custodian) => same_account(&custodian, account),
                        Err(_) => false,
                    }
                }
            },
        }
    }

    /// Closes the rentals that end at a height: each token goes back to its
    /// lender, unless its borrower does not hold it any more, and each rental
    /// comes off the record. The height's entry leaves the schedule, so a
    /// second call for the height finds nothing to do.
    pub fn on_finalize(&mut self, height: u64) -> (events: Vec<Event>)
        requires
            old(self).wf(),
        ensures
            final(self).wf(),
            final(self)@ == old(self)@.after_maturity(height),
            event_views(events@) == return_events(bucket(old(self)@.maturity, height)),
    {
        let key: u64 = height;
        let orders = match self.due_block.remove(&key) {
            Some(orders) => orders,
            None => Vec::new(),
        };
        let ghost all = order_views(orders@);
        let ghost base = self@;
        proof {
            lemma_order_views(&orders);
            lemma_returns_keep_maturity(old(self)@, all, old(self)@.maturity.remove(key));
            lemma_returns_keep_maturity(old(self)@, all, old(self)@.maturity);
            assert(all.skip(0) =~= all);
        }
        let mut events: Vec<Event> = Vec::new();
        let mut i: usize = 0;
        while i < orders.len()
            invariant
                self.wf(),
                i <= orders@.len(),
                all == order_views(orders@),
                self@.after_returns(all.skip(i as int)) == base.after_returns(all),
                events@.len() == i,
                forall|j: int| 0 <= j < i ==> events@[j]@ == return_events(all)[j],
            decreases orders@.len() - i,
        {
            let order = &orders[i];
            proof {
                assert(all.skip(i as int).skip(1) =~= all.skip(i + 1));
            }
            let _ = self.tokens.transfer_custodian(order.borrower, order.lender, copy_bytes(order.token.as_slice()));
            let _ = self.borrowers.remove(&(order.borrower, copy_bytes(order.token.as_slice())));
            events.push(Event::ReturnAsset(order.borrower, order.lender, copy_bytes(order.token.as_slice())));
            i += 1;
        }
        events
    }

    /// The installment that is due of an order, if its rental is still open.
    pub fn installment_payment(&self, order: &Order) -> (payment: Option<Payment>)
        requires
            self.wf(),
        ensures
            match payment {
                Some(due) => self@.installment_due(order@) && due.from@ == order@.borrower && due.to@
                    == order@.lender && due.amount == order@.fee,
                None => !self@.installment_due(order@),
            },
    {
        if self.borrowers.contains_key(&(order.borrower, copy_bytes(order.token.as_slice()))) {
            Some(Payment { from: order.borrower, to: order.lender, amount: order.fee })
        } else {
            None
        }
    }

    /// Takes note of what came of an installment. A paid one leaves the
    /// rental open. An unpaid one brings the token back to the lender at
    /// once and closes the rental; the borrower must still hold the token.
    pub fn settle_installment(&mut self, order: &Order, paid: bool) -> (event: Event)
        requires
            old(self).wf(),
            !paid ==> old(self)@.ledger.holds(order@.borrower, order@.token),
        ensures
            final(self).wf(),
            final(self)@ == old(self)@.after_installment(order@, paid),
            event@ == (if paid {
                EventView::RepaymentRental(order@.borrower, order@.lender, order@.token)
            } else {
                EventView::ReturnAsset(order@.borrower, order@.lender, order@.token)
            }),
    {
        if paid {
            Event::RepaymentRental(order.borrower, order.lender, copy_bytes(order.token.as_slice()))
        } else {
            let _ = self.tokens.transfer_custodian(order.borrower, order.lender, copy_bytes(order.token.as_slice()));
            let _ = self.borrowers.remove(&(order.borrower, copy_bytes(order.token.as_slice())));
            Event::ReturnAsset(order.borrower, order.lender, copy_bytes(order.token.as_slice()))
        }
    }

    /// Takes the installments that fell to a height off the schedule.
    pub fn close_repayment(&mut self, height: u64)
        requires
            old(self).wf(),
        ensures
            final(self).wf(),
            final(self)@ == old(self)@.after_repayment(height),
    {
        let _ = self.repayment.remove(&height);
    }
}

} // verus!
