use nft_renting::nft_currency::NonFungibleToken;
use nft_renting::nft_currency::Pallet as Ledger;
use nft_renting::renting::order::Order;
use nft_renting::renting::rental::{counterparty_half, fee_fits};
use nft_renting::renting::{calculate_day_renting, Error, Event, Handover, Pallet, Payment};
use sp_core::Pair;

const DAY: u64 = 86400;
const NOW: u64 = 1_700_000_000;
const BLOCK: u32 = 100;

struct Party {
    pair: sp_core::sr25519::Pair,
    account: [u8; 32],
}

fn party(seed: u8) -> Party {
    let pair = sp_core::sr25519::Pair::from_seed(&[seed; 32]);
    let account = pair.public().0;
    Party { pair, account }
}

fn address_of(key: &[u8; 32]) -> String {
    let mut raw = vec![42u8];
    raw.extend_from_slice(key);
    raw.extend_from_slice(&[0u8, 0u8]);
    bs58::encode(raw).into_string()
}

fn token() -> Vec<u8> {
    vec![0xde, 0xad, 0xbe, 0xef]
}

fn offer(lender: &Party, fee: u64, due_date: u64, paid_type: u8) -> Vec<u8> {
    format!(
        r#"{{"lender": "{}", "fee": {}, "token": "0xdeadbeef", "due_date": {}, "paid_type": {}}}"#,
        address_of(&lender.account),
        fee,
        due_date,
        paid_type
    )
    .into_bytes()
}

fn acceptance(lender: &Party, borrower: &Party, fee: u64, due_date: u64, paid_type: u8) -> Vec<u8> {
    format!(
        r#"{{"lender": "{}", "borrower": "{}", "fee": {}, "token": "0xdeadbeef", "due_date": {}, "paid_type": {}}}"#,
        address_of(&lender.account),
        address_of(&borrower.account),
        fee,
        due_date,
        paid_type
    )
    .into_bytes()
}

fn sign(party: &Party, message: &[u8]) -> Vec<u8> {
    party.pair.sign(message).0.to_vec()
}

fn market_with_token(owner: &Party) -> Pallet<Ledger> {
    let mut ledger = Ledger::new();
    ledger.mint_to(owner.account, token()).unwrap();
    Pallet::new(ledger)
}

fn half(lender: &Party, borrower: Option<&Party>, fee: u64, due_date: u64, paid_type: u8) -> Order {
    Order {
        lender: lender.account,
        borrower: borrower.map(|b| b.account).unwrap_or([0u8; 32]),
        fee,
        token: token(),
        due_date,
        paid_type,
    }
}

fn rent(
    market: &mut Pallet<Ledger>,
    caller: &Party,
    lender: &Party,
    borrower: &Party,
    fee: u64,
    due_date: u64,
    paid_type: u8,
) -> Option<Result<Handover, Error>> {
    let left = offer(lender, fee, due_date, paid_type);
    let right = acceptance(lender, borrower, fee, due_date, paid_type);
    let left_signature = sign(lender, &left);
    let right_signature = sign(borrower, &right);
    market.create_rental(
        &caller.account,
        &lender.account,
        &borrower.account,
        &left,
        &left_signature,
        &right,
        &right_signature,
        NOW,
        BLOCK,
    )
}

#[test]
fn days_are_whole_days_ahead() {
    assert_eq!(calculate_day_renting(NOW + 3 * DAY, NOW), 3);
    assert_eq!(calculate_day_renting(NOW + 3 * DAY - 1, NOW), 2);
    assert_eq!(calculate_day_renting(NOW, NOW), 0);
    assert_eq!(calculate_day_renting(0, NOW), 0);
}

#[test]
fn lender_may_undercut_its_own_offer() {
    let alice = party(1);
    let bob = party(2);
    let market = market_with_token(&alice);
    let left = half(&alice, None, 10, NOW + 3 * DAY, 1);
    let right = half(&alice, Some(&bob), 5, NOW + 3 * DAY, 1);
    assert_eq!(market.match_order(&bob.account, true, &left, right.clone(), NOW), Ok(right.clone()));
    assert_eq!(market.match_order(&bob.account, false, &left, right, NOW), Err(Error::NotEnoughFee));
}

#[test]
fn fee_at_once_is_the_daily_fee_times_the_days() {
    let alice = party(1);
    let bob = party(2);
    let market = market_with_token(&alice);
    let left = half(&alice, None, 5, NOW + 10 * DAY, 0);
    let right = half(&alice, Some(&bob), 5, NOW + 10 * DAY, 0);
    let fulfilled = market.match_order(&bob.account, false, &left, right, NOW).unwrap();
    assert_eq!(fulfilled.fee, 50);
}

#[test]
fn fee_per_week_is_seven_times_the_fee_whatever_the_term() {
    let alice = party(1);
    let bob = party(2);
    let market = market_with_token(&alice);
    for days in [2u64, 10, 100] {
        let left = half(&alice, None, 3, NOW + days * DAY, 2);
        let right = half(&alice, Some(&bob), 3, NOW + days * DAY, 2);
        let fulfilled = market.match_order(&bob.account, false, &left, right, NOW).unwrap();
        assert_eq!(fulfilled.fee, 21);
    }
}

#[test]
fn fee_per_day_stays_as_it_is() {
    let alice = party(1);
    let bob = party(2);
    let market = market_with_token(&alice);
    let left = half(&alice, None, 5, NOW + 10 * DAY, 1);
    let right = half(&alice, Some(&bob), 6, NOW + 9 * DAY, 1);
    let fulfilled = market.match_order(&bob.account, false, &left, right.clone(), NOW).unwrap();
    assert_eq!(fulfilled, right);
}

#[test]
fn halves_must_agree() {
    let alice = party(1);
    let bob = party(2);
    let carol = party(3);
    let market = market_with_token(&alice);
    let left = half(&alice, None, 5, NOW + 10 * DAY, 1);
    let mut right = half(&alice, Some(&bob), 5, NOW + 10 * DAY, 1);
    right.token = vec![1];
    assert_eq!(market.match_order(&bob.account, false, &left, right, NOW), Err(Error::NotMatchToken));
    let right = half(&carol, Some(&bob), 5, NOW + 10 * DAY, 1);
    assert_eq!(market.match_order(&bob.account, false, &left, right, NOW), Err(Error::NotMatchLender));
    let right = half(&alice, Some(&bob), 5, NOW + 10 * DAY + 1, 1);
    assert_eq!(market.match_order(&bob.account, false, &left, right, NOW), Err(Error::TimeOver));
}

#[test]
fn term_must_be_longer_than_a_day() {
    let alice = party(1);
    let bob = party(2);
    let market = market_with_token(&alice);
    let left = half(&alice, None, 5, NOW + 10 * DAY, 1);
    let right = half(&alice, Some(&bob), 5, NOW + 2 * DAY - 1, 1);
    assert_eq!(market.match_order(&bob.account, false, &left, right, NOW), Err(Error::TimeOver));
    let right = half(&alice, Some(&bob), 5, NOW + 2 * DAY, 1);
    assert!(market.match_order(&bob.account, false, &left, right, NOW).is_ok());
    let left = half(&alice, None, 5, 0, 1);
    let right = half(&alice, Some(&bob), 5, 0, 1);
    assert_eq!(market.match_order(&bob.account, false, &left, right, NOW), Err(Error::TimeOver));
}

#[test]
fn fee_that_is_no_u64_does_not_fit() {
    let alice = party(1);
    assert!(fee_fits(&half(&alice, None, u64::MAX / 3, NOW + 3 * DAY, 0), NOW));
    assert!(!fee_fits(&half(&alice, None, u64::MAX / 3 + 1, NOW + 3 * DAY, 0), NOW));
    assert!(fee_fits(&half(&alice, None, u64::MAX / 7, NOW + 3 * DAY, 2), NOW));
    assert!(!fee_fits(&half(&alice, None, u64::MAX / 7 + 1, NOW + 3 * DAY, 2), NOW));
    assert!(fee_fits(&half(&alice, None, u64::MAX, NOW + 3 * DAY, 1), NOW));
}

#[test]
fn rental_hands_the_token_over_and_asks_for_the_fee() {
    let alice = party(1);
    let bob = party(2);
    let mut market = market_with_token(&alice);
    let mut balance_alice: u64 = 0;
    let mut balance_bob: u64 = 100;
    let handover = rent(&mut market, &bob, &alice, &bob, 5, NOW + 3 * DAY, 0).unwrap().unwrap();
    assert_eq!(
        handover,
        Handover {
            payment: Payment { from: bob.account, to: alice.account, amount: 15 },
            event: Event::MatchOrder(alice.account, bob.account, token()),
        }
    );
    balance_bob -= handover.payment.amount;
    balance_alice += handover.payment.amount;
    assert_eq!(balance_alice, 15);
    assert_eq!(balance_bob, 85);
    assert_eq!(market.tokens().custodian_of(&token()), Some(bob.account));
    assert_eq!(market.tokens().owner_of(&token()), Some(alice.account));
    let fulfilled = Order {
        lender: alice.account,
        borrower: bob.account,
        fee: 15,
        token: token(),
        due_date: NOW + 3 * DAY,
        paid_type: 0,
    };
    assert_eq!(market.borrowers(&bob.account, &token()), fulfilled);
    assert_eq!(market.due_block(BLOCK as u64 + 90), vec![fulfilled]);
    assert_eq!(market.due_block(BLOCK as u64 + 89), vec![]);
    assert_eq!(market.repayment(BLOCK as u64 + 30), vec![]);
}

#[test]
fn lender_may_call_with_the_borrowers_signature() {
    let alice = party(1);
    let bob = party(2);
    let mut market = market_with_token(&alice);
    let left = offer(&alice, 10, NOW + 3 * DAY, 1);
    let right = acceptance(&alice, &bob, 5, NOW + 3 * DAY, 1);
    let right_signature = sign(&bob, &right);
    let created = market.create_rental(
        &alice.account,
        &alice.account,
        &bob.account,
        &left,
        &Vec::new(),
        &right,
        &right_signature,
        NOW,
        BLOCK,
    );
    assert_eq!(created.unwrap().unwrap().payment.amount, 5);
    let mut market = market_with_token(&alice);
    let left_signature = sign(&alice, &left);
    let created = market.create_rental(
        &bob.account,
        &alice.account,
        &bob.account,
        &left,
        &left_signature,
        &right,
        &right_signature,
        NOW,
        BLOCK,
    );
    assert_eq!(created, Some(Err(Error::NotEnoughFee)));
    assert_eq!(market.tokens().custodian_of(&token()), None);
}

#[test]
fn stranger_cannot_open_a_rental() {
    let alice = party(1);
    let bob = party(2);
    let carol = party(3);
    let mut market = market_with_token(&alice);
    assert_eq!(rent(&mut market, &carol, &alice, &bob, 5, NOW + 3 * DAY, 0), Some(Err(Error::CannotLookup)));
}

#[test]
fn bad_signature_opens_no_rental() {
    let alice = party(1);
    let bob = party(2);
    let mut market = market_with_token(&alice);
    let left = offer(&alice, 5, NOW + 3 * DAY, 0);
    let right = acceptance(&alice, &bob, 5, NOW + 3 * DAY, 0);
    let forged = sign(&bob, &left);
    let right_signature = sign(&bob, &right);
    let created = market.create_rental(
        &bob.account,
        &alice.account,
        &bob.account,
        &left,
        &forged,
        &right,
        &right_signature,
        NOW,
        BLOCK,
    );
    assert_eq!(created, Some(Err(Error::SignatureVerifyError)));
    let created = market.create_rental(
        &bob.account,
        &alice.account,
        &bob.account,
        &left,
        &vec![1, 2, 3],
        &right,
        &right_signature,
        NOW,
        BLOCK,
    );
    assert_eq!(created, Some(Err(Error::SignatureVerifyError)));
    assert_eq!(market.tokens().custodian_of(&token()), None);
    assert_eq!(market.due_block(BLOCK as u64 + 90), vec![]);
}

#[test]
fn unreadable_payload_opens_no_rental() {
    let alice = party(1);
    let bob = party(2);
    let mut market = market_with_token(&alice);
    let left = b"{".to_vec();
    let right = acceptance(&alice, &bob, 5, NOW + 3 * DAY, 0);
    let created = market.create_rental(
        &bob.account,
        &alice.account,
        &bob.account,
        &left,
        &sign(&alice, &left),
        &right,
        &sign(&bob, &right),
        NOW,
        BLOCK,
    );
    assert_eq!(created, None);
    let left = offer(&alice, u64::MAX, NOW + 3 * DAY, 0);
    let right = acceptance(&alice, &bob, u64::MAX, NOW + 3 * DAY, 0);
    let created = market.create_rental(
        &bob.account,
        &alice.account,
        &bob.account,
        &left,
        &sign(&alice, &left),
        &right,
        &sign(&bob, &right),
        NOW,
        BLOCK,
    );
    assert_eq!(created, None);
    assert_eq!(market.tokens().custodian_of(&token()), None);
}

#[test]
fn due_date_that_lies_behind_is_refused() {
    let alice = party(1);
    let bob = party(2);
    let mut market = market_with_token(&alice);
    assert_eq!(rent(&mut market, &bob, &alice, &bob, 5, NOW, 0), Some(Err(Error::TimeOver)));
}

#[test]
fn lender_that_does_not_hold_the_token_cannot_rent_it_out() {
    let alice = party(1);
    let bob = party(2);
    let carol = party(3);
    let mut market = market_with_token(&carol);
    assert_eq!(
        rent(&mut market, &bob, &alice, &bob, 5, NOW + 3 * DAY, 0),
        Some(Err(Error::CannotTransferCustodian))
    );
    assert_eq!(market.borrowers(&bob.account, &token()), Order::new());
    assert_eq!(market.due_block(BLOCK as u64 + 90), vec![]);
}

#[test]
fn withdrawn_offer_opens_no_rental() {
    let alice = party(1);
    let bob = party(2);
    let mut market = market_with_token(&alice);
    let left = offer(&alice, 5, NOW + 3 * DAY, 0);
    assert_eq!(
        market.try_cancel_order(&alice.account, &left, true, NOW),
        Some(Ok(Event::CancelOrder(left.clone(), alice.account, true)))
    );
    let withdrawn = half(&alice, None, 5, NOW + 3 * DAY, 0);
    assert_eq!(market.cancel_orders(&withdrawn.encode()), Some(withdrawn));
    assert_eq!(rent(&mut market, &bob, &alice, &bob, 5, NOW + 3 * DAY, 0), Some(Err(Error::AlreadyCanceled)));
    assert_eq!(rent(&mut market, &alice, &alice, &bob, 5, NOW + 3 * DAY, 0), Some(Err(Error::AlreadyCanceled)));
    assert_eq!(market.tokens().custodian_of(&token()), None);
    assert!(rent(&mut market, &bob, &alice, &bob, 6, NOW + 3 * DAY, 0).unwrap().is_ok());
}

#[test]
fn withdrawal_is_the_partys_own() {
    let alice = party(1);
    let bob = party(2);
    let mut market = market_with_token(&alice);
    let left = offer(&alice, 5, NOW + 3 * DAY, 0);
    assert_eq!(market.try_cancel_order(&bob.account, &left, true, NOW), Some(Err(Error::NotMatchLender)));
    let anonymous = br#"{"fee": 5}"#.to_vec();
    assert_eq!(
        market.try_cancel_order(&alice.account, &anonymous, true, NOW),
        Some(Err(Error::NotOwnerOfOrder))
    );
    assert_eq!(
        market.try_cancel_order(&bob.account, &anonymous, false, NOW),
        Some(Err(Error::NotOwnerOfOrder))
    );
    let own = format!(r#"{{"borrower": "{}", "fee": 5}}"#, address_of(&bob.account)).into_bytes();
    assert_eq!(
        market.try_cancel_order(&bob.account, &own, false, NOW),
        Some(Ok(Event::CancelOrder(own.clone(), bob.account, false)))
    );
    assert_eq!(market.try_cancel_order(&bob.account, &b"[]".to_vec(), false, NOW), None);
}

#[test]
fn end_of_term_brings_the_token_back_once() {
    let alice = party(1);
    let bob = party(2);
    let mut market = market_with_token(&alice);
    rent(&mut market, &bob, &alice, &bob, 5, NOW + 3 * DAY, 0).unwrap().unwrap();
    assert_eq!(market.on_finalize(BLOCK as u64 + 89), vec![]);
    assert_eq!(market.tokens().custodian_of(&token()), Some(bob.account));
    assert_eq!(market.on_finalize(BLOCK as u64 + 90), vec![Event::ReturnAsset(bob.account, alice.account, token())]);
    assert_eq!(market.tokens().custodian_of(&token()), None);
    assert_eq!(market.borrowers(&bob.account, &token()), Order::new());
    assert_eq!(market.due_block(BLOCK as u64 + 90), vec![]);
    assert_eq!(market.on_finalize(BLOCK as u64 + 90), vec![]);
    assert_eq!(market.tokens().custodian_of(&token()), None);
    assert_eq!(market.tokens().owner_of(&token()), Some(alice.account));
}

#[test]
fn end_of_term_leaves_custody_that_has_moved_on() {
    let alice = party(1);
    let bob = party(2);
    let carol = party(3);
    let mut market = market_with_token(&alice);
    rent(&mut market, &bob, &alice, &bob, 5, NOW + 3 * DAY, 0).unwrap().unwrap();
    let mut ledger = market.replace_tokens(Ledger::new());
    ledger.transfer_custodian(bob.account, carol.account, token()).unwrap();
    market.replace_tokens(ledger);
    assert_eq!(market.on_finalize(BLOCK as u64 + 90), vec![Event::ReturnAsset(bob.account, alice.account, token())]);
    assert_eq!(market.tokens().custodian_of(&token()), Some(carol.account));
    assert_eq!(market.borrowers(&bob.account, &token()), Order::new());
}

#[test]
fn installments_fall_to_every_day_of_the_term() {
    let alice = party(1);
    let bob = party(2);
    let mut market = market_with_token(&alice);
    let handover = rent(&mut market, &bob, &alice, &bob, 5, NOW + 3 * DAY, 1).unwrap().unwrap();
    assert_eq!(handover.payment.amount, 5);
    let order = market.borrowers(&bob.account, &token());
    for height in [130u64, 160, 190] {
        assert_eq!(market.repayment(height), vec![order.clone()]);
    }
    for height in [100u64, 129, 131, 220] {
        assert_eq!(market.repayment(height), vec![]);
    }
    assert_eq!(market.due_block(190), vec![order]);
}

#[test]
fn weekly_installments_fall_to_full_weeks_of_the_term() {
    let alice = party(1);
    let bob = party(2);
    let mut market = market_with_token(&alice);
    let handover = rent(&mut market, &bob, &alice, &bob, 3, NOW + 3 * DAY, 2).unwrap().unwrap();
    assert_eq!(handover.payment.amount, 21);
    let order = market.borrowers(&bob.account, &token());
    assert_eq!(market.repayment(310), vec![]);
    assert_eq!(market.due_block(190), vec![order]);
    let mut market = market_with_token(&alice);
    rent(&mut market, &bob, &alice, &bob, 3, NOW + 15 * DAY, 2).unwrap().unwrap();
    let order = market.borrowers(&bob.account, &token());
    for height in [310u64, 520] {
        assert_eq!(market.repayment(height), vec![order.clone()]);
    }
    assert_eq!(market.repayment(730), vec![]);
    assert_eq!(market.due_block(550), vec![order.clone()]);
    let mut market = market_with_token(&alice);
    rent(&mut market, &bob, &alice, &bob, 3, NOW + 14 * DAY, 2).unwrap().unwrap();
    let order = market.borrowers(&bob.account, &token());
    for height in [310u64, 520] {
        assert_eq!(market.repayment(height), vec![order.clone()]);
    }
    assert_eq!(market.repayment(730), vec![]);
    assert_eq!(market.due_block(520), vec![order]);
}

#[test]
fn no_installment_falls_after_the_end_of_term() {
    let mut market: Pallet<Ledger> = Pallet::new(Ledger::new());
    let order = Order {
        lender: [1u8; 32],
        borrower: [2u8; 32],
        fee: 21,
        token: vec![1],
        due_date: 1_259_200,
        paid_type: 2,
    };
    assert_eq!(market.get_due_block(&order, 1_000_000, 100), 190);
    for height in 100u64..=400 {
        assert_eq!(market.repayment(height), vec![]);
    }
}

#[test]
fn schedule_entry_hands_out_the_end_of_term() {
    let alice = party(1);
    let bob = party(2);
    let mut market = market_with_token(&alice);
    let order = half(&alice, Some(&bob), 5, NOW + 2 * DAY, 1);
    assert_eq!(market.get_due_block(&order, NOW, 7), 67);
    assert_eq!(market.repayment(37), vec![order.clone()]);
    assert_eq!(market.repayment(67), vec![order.clone()]);
    assert_eq!(market.repayment(97), vec![]);
    let short = half(&alice, Some(&bob), 5, NOW + 1, 2);
    assert_eq!(market.get_due_block(&short, NOW, 7), 7);
    assert_eq!(market.repayment(217), vec![]);
    let short = half(&alice, Some(&bob), 5, NOW + 1, 1);
    assert_eq!(market.get_due_block(&short, NOW, 7), 7);
    assert_eq!(market.repayment(37), vec![order]);
    let at_once = half(&alice, Some(&bob), 5, NOW + 2 * DAY, 0);
    assert_eq!(market.get_due_block(&at_once, NOW, 1000), 1060);
    assert_eq!(market.repayment(1030), vec![]);
}

#[test]
fn paid_installment_keeps_the_rental_open() {
    let alice = party(1);
    let bob = party(2);
    let mut market = market_with_token(&alice);
    rent(&mut market, &bob, &alice, &bob, 5, NOW + 3 * DAY, 1).unwrap().unwrap();
    let due = market.repayment(130);
    assert_eq!(due.len(), 1);
    assert_eq!(
        market.installment_payment(&due[0]),
        Some(Payment { from: bob.account, to: alice.account, amount: 5 })
    );
    assert_eq!(
        market.settle_installment(&due[0], true),
        Event::RepaymentRental(bob.account, alice.account, token())
    );
    market.close_repayment(130);
    assert_eq!(market.repayment(130), vec![]);
    assert_eq!(market.tokens().custodian_of(&token()), Some(bob.account));
    assert_eq!(market.borrowers(&bob.account, &token()), due[0]);
}

#[test]
fn missed_installment_brings_the_token_back_at_once() {
    let alice = party(1);
    let bob = party(2);
    let mut market = market_with_token(&alice);
    rent(&mut market, &bob, &alice, &bob, 5, NOW + 3 * DAY, 1).unwrap().unwrap();
    let due = market.repayment(130);
    assert!(market.installment_payment(&due[0]).is_some());
    assert!(market.holds_token(&bob.account, &token()));
    assert_eq!(
        market.settle_installment(&due[0], false),
        Event::ReturnAsset(bob.account, alice.account, token())
    );
    market.close_repayment(130);
    assert_eq!(market.tokens().custodian_of(&token()), None);
    assert!(!market.holds_token(&bob.account, &token()));
    assert_eq!(market.borrowers(&bob.account, &token()), Order::new());
    for height in [160u64, 190] {
        let later = market.repayment(height);
        assert_eq!(later.len(), 1);
        assert_eq!(market.installment_payment(&later[0]), None);
        market.close_repayment(height);
    }
    assert_eq!(market.on_finalize(190), vec![Event::ReturnAsset(bob.account, alice.account, token())]);
    assert_eq!(market.tokens().custodian_of(&token()), None);
    assert_eq!(market.tokens().owner_of(&token()), Some(alice.account));
}

#[test]
fn borrower_cannot_shorten_a_running_rental() {
    let alice = party(1);
    let bob = party(2);
    let mut market = market_with_token(&alice);
    rent(&mut market, &bob, &alice, &bob, 5, NOW + 5 * DAY, 0).unwrap().unwrap();
    assert_eq!(rent(&mut market, &bob, &alice, &bob, 5, NOW + 4 * DAY, 0), Some(Err(Error::NotQualified)));
    assert!(!market.check_borrowers(&bob.account, &token(), NOW + 5 * DAY - 1));
    assert!(market.check_borrowers(&bob.account, &token(), NOW + 5 * DAY));
    assert!(market.check_borrowers(&alice.account, &token(), NOW + DAY));
    assert!(rent(&mut market, &bob, &alice, &bob, 5, NOW + 5 * DAY, 0).unwrap().is_ok());
    assert!(rent(&mut market, &bob, &alice, &bob, 5, NOW + 6 * DAY, 0).unwrap().is_ok());
    assert_eq!(market.borrowers(&bob.account, &token()).due_date, NOW + 6 * DAY);
}

#[test]
fn borrower_gives_the_token_back_early() {
    let alice = party(1);
    let bob = party(2);
    let carol = party(3);
    let mut market = market_with_token(&alice);
    assert_eq!(market.stop_renting(&bob.account, &token()), Err(Error::NotMatchBorrower));
    rent(&mut market, &bob, &alice, &bob, 5, NOW + 3 * DAY, 0).unwrap().unwrap();
    assert_eq!(market.stop_renting(&carol.account, &token()), Err(Error::NotMatchBorrower));
    assert_eq!(market.stop_renting(&bob.account, &token()), Ok(Event::StopRenting(token(), bob.account)));
    assert_eq!(market.tokens().custodian_of(&token()), None);
    assert_eq!(market.borrowers(&bob.account, &token()), Order::new());
    assert_eq!(market.stop_renting(&bob.account, &token()), Err(Error::NotMatchBorrower));
}

#[test]
fn borrower_that_passed_the_token_on_cannot_give_it_back() {
    let alice = party(1);
    let bob = party(2);
    let carol = party(3);
    let mut market = market_with_token(&alice);
    rent(&mut market, &bob, &alice, &bob, 5, NOW + 3 * DAY, 0).unwrap().unwrap();
    let mut ledger = market.replace_tokens(Ledger::new());
    ledger.transfer_custodian(bob.account, carol.account, token()).unwrap();
    market.replace_tokens(ledger);
    assert_eq!(market.stop_renting(&bob.account, &token()), Err(Error::NotOwner));
    let mut ledger = market.replace_tokens(Ledger::new());
    ledger.transfer_custodian(carol.account, alice.account, token()).unwrap();
    market.replace_tokens(ledger);
    assert_eq!(market.stop_renting(&bob.account, &token()), Err(Error::NoneExist));
}

#[test]
fn payloads_open_a_rental_once_the_signature_passed() {
    let alice = party(1);
    let bob = party(2);
    let mut market = market_with_token(&alice);
    let left = offer(&alice, 5, NOW + 3 * DAY, 0);
    let right = acceptance(&alice, &bob, 5, NOW + 3 * DAY, 0);
    let refused = market.open_from_payloads(
        Err(Error::SignatureVerifyError),
        false,
        &alice.account,
        &bob.account,
        &left,
        &right,
        NOW,
        BLOCK,
    );
    assert_eq!(refused, Err(Error::SignatureVerifyError));
    assert_eq!(market.tokens().custodian_of(&token()), None);
    let opened =
        market.open_from_payloads(Ok(()), false, &alice.account, &bob.account, &left, &right, NOW, BLOCK);
    assert_eq!(opened.unwrap().payment.amount, 15);
    assert_eq!(market.tokens().custodian_of(&token()), Some(bob.account));
}

#[test]
fn halves_open_a_rental() {
    let alice = party(1);
    let bob = party(2);
    let mut market = market_with_token(&alice);
    let left = half(&alice, None, 4, NOW + 9 * DAY, 2);
    let right = half(&alice, Some(&bob), 6, NOW + 8 * DAY, 2);
    let opened = market.open_rental(false, &alice.account, &bob.account, &left, right.clone(), NOW, BLOCK);
    assert_eq!(
        opened,
        Ok(Handover {
            payment: Payment { from: bob.account, to: alice.account, amount: 42 },
            event: Event::MatchOrder(alice.account, bob.account, token()),
        })
    );
    let mut fulfilled = right;
    fulfilled.fee = 42;
    assert_eq!(market.borrowers(&bob.account, &token()), fulfilled);
    assert_eq!(market.due_block(BLOCK as u64 + 240), vec![fulfilled.clone()]);
    assert_eq!(market.repayment(BLOCK as u64 + 210), vec![fulfilled]);
    assert_eq!(market.repayment(BLOCK as u64 + 420), vec![]);
}

#[test]
fn custody_handover_names_the_payment() {
    let alice = party(1);
    let bob = party(2);
    let carol = party(3);
    let mut market = market_with_token(&alice);
    let order = half(&alice, Some(&bob), 9, NOW + 3 * DAY, 1);
    assert_eq!(
        market.transfer_custodian(&carol.account, &bob.account, &order),
        Err(Error::CannotTransferCustodian)
    );
    assert_eq!(
        market.transfer_custodian(&alice.account, &bob.account, &order),
        Ok(Payment { from: bob.account, to: alice.account, amount: 9 })
    );
    assert_eq!(market.tokens().custodian_of(&token()), Some(bob.account));
    assert!(market.match_check(&bob.account, false, &order, &order, NOW));
    assert!(!market.match_check(&bob.account, false, &order, &order, NOW + 2 * DAY));
}

#[test]
fn payload_without_a_due_date_is_already_due() {
    let alice = party(1);
    let bob = party(2);
    let mut market = market_with_token(&alice);
    let left = format!(r#"{{"lender": "{}", "fee": 5, "token": "0xdeadbeef"}}"#, address_of(&alice.account))
        .into_bytes();
    let right = format!(
        r#"{{"lender": "{}", "borrower": "{}", "fee": 5, "token": "0xdeadbeef"}}"#,
        address_of(&alice.account),
        address_of(&bob.account)
    )
    .into_bytes();
    let created = market.create_rental(
        &bob.account,
        &alice.account,
        &bob.account,
        &left,
        &sign(&alice, &left),
        &right,
        &sign(&bob, &right),
        NOW,
        BLOCK,
    );
    assert_eq!(created, Some(Err(Error::TimeOver)));
    assert_eq!(market.tokens().custodian_of(&token()), None);
}

#[test]
fn halves_of_different_tokens_open_no_rental() {
    let alice = party(1);
    let bob = party(2);
    let mut market = market_with_token(&alice);
    let left = offer(&alice, 5, NOW + 3 * DAY, 0);
    let right = format!(
        r#"{{"lender": "{}", "borrower": "{}", "fee": 5, "token": "0x01", "due_date": {}, "paid_type": 0}}"#,
        address_of(&alice.account),
        address_of(&bob.account),
        NOW + 3 * DAY
    )
    .into_bytes();
    let created = market.create_rental(
        &bob.account,
        &alice.account,
        &bob.account,
        &left,
        &sign(&alice, &left),
        &right,
        &sign(&bob, &right),
        NOW,
        BLOCK,
    );
    assert_eq!(created, Some(Err(Error::NotMatchToken)));
}

#[test]
fn borrower_withdraws_its_half_that_names_the_lender() {
    let alice = party(1);
    let bob = party(2);
    let mut market = market_with_token(&alice);
    let right = acceptance(&alice, &bob, 5, NOW + 3 * DAY, 0);
    assert_eq!(
        market.try_cancel_order(&bob.account, &right, false, NOW),
        Some(Ok(Event::CancelOrder(right.clone(), bob.account, false)))
    );
    let withdrawn = half(&alice, Some(&bob), 5, NOW + 3 * DAY, 0);
    assert_eq!(market.cancel_orders(&withdrawn.encode()), Some(withdrawn));
    assert_eq!(rent(&mut market, &bob, &alice, &bob, 5, NOW + 3 * DAY, 0), Some(Err(Error::AlreadyCanceled)));
    assert_eq!(rent(&mut market, &alice, &alice, &bob, 5, NOW + 3 * DAY, 0), Some(Err(Error::AlreadyCanceled)));
    assert_eq!(market.tokens().custodian_of(&token()), None);
    assert_eq!(market.borrowers(&bob.account, &token()), Order::new());
    assert_eq!(market.due_block(BLOCK as u64 + 90), vec![]);
    assert_eq!(market.try_cancel_order(&alice.account, &right, false, NOW), Some(Err(Error::NotMatchBorrower)));
}

#[test]
fn withdrawn_half_is_refused_whatever_its_fee() {
    let alice = party(1);
    let bob = party(2);
    let mut market = market_with_token(&alice);
    let left = offer(&alice, u64::MAX, NOW + 3 * DAY, 0);
    assert!(market.try_cancel_order(&alice.account, &left, true, NOW).unwrap().is_ok());
    assert_eq!(
        rent(&mut market, &bob, &alice, &bob, u64::MAX, NOW + 3 * DAY, 0),
        Some(Err(Error::AlreadyCanceled))
    );
}

#[test]
fn stranger_is_refused_before_a_payload_is_read() {
    let alice = party(1);
    let bob = party(2);
    let carol = party(3);
    let mut market = market_with_token(&alice);
    let garbage = b"e9999999999".to_vec();
    let created = market.create_rental(
        &carol.account,
        &alice.account,
        &bob.account,
        &garbage,
        &Vec::new(),
        &garbage,
        &Vec::new(),
        NOW,
        BLOCK,
    );
    assert_eq!(created, Some(Err(Error::CannotLookup)));
}

#[test]
fn signature_is_refused_before_a_payload_is_read() {
    let alice = party(1);
    let bob = party(2);
    let mut market = market_with_token(&alice);
    let garbage = b"e9999999999".to_vec();
    let created = market.create_rental(
        &bob.account,
        &alice.account,
        &bob.account,
        &garbage,
        &sign(&bob, &garbage),
        &garbage,
        &sign(&bob, &garbage),
        NOW,
        BLOCK,
    );
    assert_eq!(created, Some(Err(Error::SignatureVerifyError)));
    let created = market.create_rental(
        &bob.account,
        &alice.account,
        &bob.account,
        &garbage,
        &sign(&alice, &garbage),
        &garbage,
        &Vec::new(),
        NOW,
        BLOCK,
    );
    assert_eq!(created, None);
}

#[test]
fn signature_of_the_other_party_is_the_one_checked() {
    let alice = party(1);
    let bob = party(2);
    let mut market = market_with_token(&alice);
    let left = offer(&alice, 5, NOW + 3 * DAY, 0);
    let right = acceptance(&alice, &bob, 5, NOW + 3 * DAY, 0);
    let own = market.create_rental(
        &bob.account,
        &alice.account,
        &bob.account,
        &left,
        &Vec::new(),
        &right,
        &sign(&bob, &right),
        NOW,
        BLOCK,
    );
    assert_eq!(own, Some(Err(Error::SignatureVerifyError)));
    let own = market.create_rental(
        &alice.account,
        &alice.account,
        &bob.account,
        &left,
        &sign(&alice, &left),
        &right,
        &Vec::new(),
        NOW,
        BLOCK,
    );
    assert_eq!(own, Some(Err(Error::SignatureVerifyError)));
    let other = market.create_rental(
        &alice.account,
        &alice.account,
        &bob.account,
        &left,
        &Vec::new(),
        &right,
        &sign(&bob, &right),
        NOW,
        BLOCK,
    );
    assert!(other.unwrap().is_ok());
}

#[test]
fn end_of_term_closes_every_rental_of_the_height() {
    let alice = party(1);
    let bob = party(2);
    let carol = party(3);
    let mut ledger = Ledger::new();
    ledger.mint_to(alice.account, token()).unwrap();
    let mut market = Pallet::new(ledger);
    let first = half(&alice, Some(&bob), 5, NOW + 3 * DAY, 1);
    let second = half(&bob, Some(&carol), 5, NOW + 3 * DAY, 1);
    assert!(market.open_rental(false, &alice.account, &bob.account, &first, first.clone(), NOW, BLOCK).is_ok());
    assert!(market.open_rental(false, &bob.account, &carol.account, &second, second.clone(), NOW, BLOCK).is_ok());
    assert_eq!(market.tokens().custodian_of(&token()), Some(carol.account));
    assert_eq!(
        market.on_finalize(BLOCK as u64 + 90),
        vec![
            Event::ReturnAsset(bob.account, alice.account, token()),
            Event::ReturnAsset(carol.account, bob.account, token()),
        ]
    );
    assert_eq!(market.borrowers(&bob.account, &token()), Order::new());
    assert_eq!(market.borrowers(&carol.account, &token()), Order::new());
    assert_eq!(market.tokens().custodian_of(&token()), Some(bob.account));
    assert_eq!(market.tokens().owner_of(&token()), Some(alice.account));
}

#[test]
fn checked_half_is_the_other_partys() {
    let lender = [1u8; 32];
    let borrower = [2u8; 32];
    let (left, left_signature) = (b"left".to_vec(), b"ls".to_vec());
    let (right, right_signature) = (b"right".to_vec(), b"rs".to_vec());
    assert_eq!(
        counterparty_half(true, &lender, &borrower, &left, &left_signature, &right, &right_signature),
        (&right, &right_signature, &borrower)
    );
    assert_eq!(
        counterparty_half(false, &lender, &borrower, &left, &left_signature, &right, &right_signature),
        (&left, &left_signature, &lender)
    );
}

#[test]
fn payloads_are_dealt_with_after_the_signature() {
    let alice = party(1);
    let bob = party(2);
    let mut market = market_with_token(&alice);
    let left = offer(&alice, 5, NOW + 3 * DAY, 0);
    let right = acceptance(&alice, &bob, 5, NOW + 3 * DAY, 0);
    let garbage = b"[]".to_vec();
    assert!(market.payloads_readable(false, &alice.account, &bob.account, &left, &right, NOW));
    assert!(!market.payloads_readable(false, &alice.account, &bob.account, &left, &garbage, NOW));
    assert!(!market.payloads_readable(false, &alice.account, &bob.account, &garbage, &right, NOW));
    let big = offer(&alice, u64::MAX, NOW + 3 * DAY, 0);
    let big_right = acceptance(&alice, &bob, u64::MAX, NOW + 3 * DAY, 0);
    assert!(!market.payloads_readable(false, &alice.account, &bob.account, &big, &big_right, NOW));
    assert!(market.payloads_readable(false, &alice.account, &bob.account, &big, &right, NOW));
    assert_eq!(
        market.deal_with_payloads(
            Err(Error::SignatureVerifyError),
            false,
            &alice.account,
            &bob.account,
            &garbage,
            &garbage,
            NOW,
            BLOCK
        ),
        Some(Err(Error::SignatureVerifyError))
    );
    assert_eq!(
        market.deal_with_payloads(Ok(()), false, &alice.account, &bob.account, &left, &garbage, NOW, BLOCK),
        None
    );
    assert!(market
        .deal_with_payloads(Ok(()), false, &alice.account, &bob.account, &left, &right, NOW, BLOCK)
        .unwrap()
        .is_ok());
}
